//! The concrete listing provider: the parsing core that turns the fetched
//! listing markup and the fetched icon sprite into a [`Program`], remembers
//! the detail-page URL of each movie, and enriches a movie from a fetched
//! detail page. Fetching itself is left to the caller: every function here
//! works on plain values handed in.

use vstd::prelude::*;

use crate::error::Error;
use crate::icon::{crop_tile, decode_webp_icon, spec_crop, sprite_of, IconView};
use crate::program::{
    clone_opt_string, opt_str_view, Channel, ChannelView, Movie, MovieBuilder, MovieView,
    Program,
};
use crate::text::{
    first_space_token, last_space_token, parse_u32, spec_first_token, spec_last_token,
    spec_parse_u32, spec_strip_suffix, str_eq, strip_suffix_str, trim_of, trim_str,
};

verus! {

/// The listing page with the evening schedule.
pub const LISTING_URL: &'static str = "https://www.tvspielfilm.de/tv-programm/sendungen/abends.html";

/// The sprite image holding every channel icon as stacked square tiles.
pub const ICONS_URL: &'static str =
    "https://a2.tvspielfilm.de/images/tv/sender/mini/sprite_web_optimized_1616508904.webp";

/// The side length of one square icon tile in the sprite.
pub const ICON_SIZE: u32 = 44;

/// The order of the channel icons in the sprite image, top to bottom.
pub open spec fn spec_icon_order() -> Seq<Seq<char>> {
    seq![
        "Das Erste"@,
        "ZDF"@,
        "RTL"@,
        "SAT.1"@,
        "ProSieben"@,
        "kabel eins"@,
        "RTL II"@,
        "VOX"@,
        "TELE 5"@,
        "3sat"@,
        "ARTE"@,
        "ZDFneo"@,
        "ONE"@,
        "ServusTV Deutschland"@,
        "NITRO"@,
        "DMAX"@,
        "sixx"@,
        "SAT.1 Gold"@,
        "ProSieben MAXX"@,
        "COMEDY CENTRAL"@,
        "RTLplus"@,
        "WDR"@,
        "NDR"@,
        "BR"@,
        "SWR/SR"@,
        "HR"@,
        "MDR"@,
        "RBB"@,
        "tv.berlin"@,
    ]
}

/// The channel names of the sprite's icon tiles, in tile order.
pub fn icon_order_table() -> (r: Vec<String>)
    ensures
        r@.len() == spec_icon_order().len(),
        forall|i: int| 0 <= i < r@.len() ==> (#[trigger] r@[i])@ == spec_icon_order()[i],
{
    let mut t: Vec<String> = Vec::new();
    t.push("Das Erste".to_owned());
    t.push("ZDF".to_owned());
    t.push("RTL".to_owned());
    t.push("SAT.1".to_owned());
    t.push("ProSieben".to_owned());
    t.push("kabel eins".to_owned());
    t.push("RTL II".to_owned());
    t.push("VOX".to_owned());
    t.push("TELE 5".to_owned());
    t.push("3sat".to_owned());
    t.push("ARTE".to_owned());
    t.push("ZDFneo".to_owned());
    t.push("ONE".to_owned());
    t.push("ServusTV Deutschland".to_owned());
    t.push("NITRO".to_owned());
    t.push("DMAX".to_owned());
    t.push("sixx".to_owned());
    t.push("SAT.1 Gold".to_owned());
    t.push("ProSieben MAXX".to_owned());
    t.push("COMEDY CENTRAL".to_owned());
    t.push("RTLplus".to_owned());
    t.push("WDR".to_owned());
    t.push("NDR".to_owned());
    t.push("BR".to_owned());
    t.push("SWR/SR".to_owned());
    t.push("HR".to_owned());
    t.push("MDR".to_owned());
    t.push("RBB".to_owned());
    t.push("tv.berlin".to_owned());
    t
}

/// The position of the first table entry equal to `name`, if any.
pub fn position_of(table: &Vec<String>, name: &str) -> (r: Option<usize>)
    ensures
        match r {
            Some(i) => i < table@.len() && (#[trigger] table@[i as int])@ == name@ && (forall|
                k: int,
            |
                0 <= k < i ==> (#[trigger] table@[k])@ != name@),
            None => forall|k: int| 0 <= k < table@.len() ==> (#[trigger] table@[k])@ != name@,
        },
{
    let mut i: usize = 0;
    while i < table.len()
        invariant
            i <= table@.len(),
            forall|k: int| 0 <= k < i ==> (#[trigger] table@[k])@ != name@,
        decreases table@.len() - i,
    {
        if str_eq(table[i].as_str(), name) {
            return Some(i);
        }
        i += 1;
    }
    None
}

/// What an association list maps each movie to: later entries shadow
/// earlier ones with the same key, as a map insert does.
pub open spec fn cache_map(entries: Seq<(Movie, String)>) -> Map<MovieView, Seq<char>>
    decreases entries.len(),
{
    if entries.len() == 0 {
        Map::empty()
    } else {
        cache_map(entries.drop_last()).insert(entries.last().0@, entries.last().1@)
    }
}

/// An entry with no later entry of the same key gives that key's mapping.
proof fn lemma_cache_map_at(entries: Seq<(Movie, String)>, j: int)
    requires
        0 <= j < entries.len(),
        forall|k: int| j < k < entries.len() ==> (#[trigger] entries[k]).0@ != entries[j].0@,
    ensures
        cache_map(entries).contains_key(entries[j].0@),
        cache_map(entries)[entries[j].0@] == entries[j].1@,
    decreases entries.len(),
{
    if j == entries.len() - 1 {
    } else {
        lemma_cache_map_at(entries.drop_last(), j);
        assert(entries.drop_last()[j] == entries[j]);
    }
}

/// A key equal to no entry's movie is absent from the map.
proof fn lemma_cache_map_absent(entries: Seq<(Movie, String)>, key: MovieView)
    requires
        forall|k: int| 0 <= k < entries.len() ==> (#[trigger] entries[k]).0@ != key,
    ensures
        !cache_map(entries).contains_key(key),
    decreases entries.len(),
{
    if entries.len() > 0 {
        lemma_cache_map_absent(entries.drop_last(), key);
    }
}

/// The tvspielfilm.de provider: remembers, for each movie of the last
/// fetched program, the URL of its detail page. The view of a provider is
/// that mapping, keyed by the movie's whole value.
pub struct TvSpielfilm {
    /// Maps each movie to a URL with more information.
    more_information_urls: Vec<(Movie, String)>,
}

impl View for TvSpielfilm {
    type V = Map<MovieView, Seq<char>>;

    closed spec fn view(&self) -> Map<MovieView, Seq<char>> {
        cache_map(self.more_information_urls@)
    }
}

impl TvSpielfilm {
    /// Create a new provider with an empty detail-URL cache.
    pub fn new() -> (r: Self)
        ensures
            r@ == Map::<MovieView, Seq<char>>::empty(),
    {
        TvSpielfilm { more_information_urls: Vec::new() }
    }

    /// Remember the detail-page URL of a movie, shadowing any earlier entry
    /// for an equal movie.
    fn cache_insert(&mut self, movie: Movie, url: String)
        ensures
            final(self)@ == old(self)@.insert(movie@, url@),
    {
        self.more_information_urls.push((movie, url));
        proof {
            assert(self.more_information_urls@.drop_last()
                =~= old(self).more_information_urls@);
        }
    }

    /// Look up the remembered detail-page URL of a movie, comparing movies
    /// by the value of every field.
    pub fn get_detail_url(&self, movie: &Movie) -> (r: Option<String>)
        ensures
            r is Some <==> self@.contains_key(movie@),
            r is Some ==> (r->Some_0)@ == self@[movie@],
    {
        let entries = &self.more_information_urls;
        let mut i: usize = entries.len();
        while i > 0
            invariant
                i <= entries@.len(),
                self@ == cache_map(entries@),
                forall|k: int| i <= k < entries@.len() ==> (#[trigger] entries@[k]).0@ != movie@,
            decreases i,
        {
            if entries[i - 1].0.same_as(movie) {
                proof {
                    assert(entries@[i - 1].0@ == movie@);
                    lemma_cache_map_at(entries@, i - 1);
                }
                return Some(entries[i - 1].1.clone());
            }
            i -= 1;
        }
        proof {
            lemma_cache_map_absent(entries@, movie@);
        }
        None
    }
}

impl Clone for TvSpielfilm {
    /// A clone deep-copies the detail-URL cache, so two clones evolve
    /// independently; the clone's view equals the original's.
    fn clone(&self) -> (r: Self)
        ensures
            r@ == self@,
    {
        let entries = &self.more_information_urls;
        let mut copy: Vec<(Movie, String)> = Vec::new();
        let mut i: usize = 0;
        while i < entries.len()
            invariant
                i <= entries@.len(),
                copy@.len() == i,
                forall|k: int|
                    0 <= k < i ==> (#[trigger] copy@[k]).0@ == entries@[k].0@ && copy@[k].1@
                        == entries@[k].1@,
            decreases entries@.len() - i,
        {
            let pair = &entries[i];
            copy.push((pair.0.clone(), pair.1.clone()));
            i += 1;
        }
        let r = TvSpielfilm { more_information_urls: copy };
        proof {
            lemma_cache_map_congruent(r.more_information_urls@, self.more_information_urls@);
        }
        r
    }
}

/// Association lists with pairwise equal views map equally.
proof fn lemma_cache_map_congruent(a: Seq<(Movie, String)>, b: Seq<(Movie, String)>)
    requires
        a.len() == b.len(),
        forall|k: int|
            0 <= k < a.len() ==> (#[trigger] a[k]).0@ == b[k].0@ && a[k].1@ == b[k].1@,
    ensures
        cache_map(a) == cache_map(b),
    decreases a.len(),
{
    if a.len() > 0 {
        lemma_cache_map_congruent(a.drop_last(), b.drop_last());
        assert(a.drop_last().len() == b.drop_last().len());
    }
}

/// The selector for the repeating schedule-row elements of the listing.
pub const LIST_ROWS_SELECTOR: &'static str =
    "body #wrapper #main .content-area #content .tvlistings .content-holder .tab-content .info-table tbody .hover";

/// The selector for the channel link within a row.
pub const CHANNEL_SELECTOR: &'static str = ".programm-col1 a";

/// The selector for the movie title within a row.
pub const TITLE_SELECTOR: &'static str = ".col-3 span a strong";

/// The selector for the movie genre within a row.
pub const GENRE_SELECTOR: &'static str = ".col-4 span";

/// The selector for the movie division within a row.
pub const DIVISION_SELECTOR: &'static str = ".col-5 span";

/// The selector for the entry link within a row, carrying the year label
/// and the detail-page target.
pub const ENTRY_SELECTOR: &'static str = ".col-3 span a";

/// The selector for the description paragraphs of a detail page.
pub const DESCRIPTION_SELECTOR: &'static str =
    "#content div div article section.broadcast-detail__description p";

/// The plain fields extracted from one listing row. `None` records that an
/// element, or a required attribute on it, was absent.
pub struct RowData {
    /// The channel link's label attribute.
    pub channel_label: Option<String>,
    /// The title element's inner markup.
    pub title: Option<String>,
    /// The genre element's inner markup.
    pub genre: Option<String>,
    /// The division element's inner markup.
    pub division: Option<String>,
    /// The label attribute of the entry link; empty when the link is there
    /// without it.
    pub year_label: Option<String>,
    /// The entry link's target.
    pub detail_href: Option<String>,
}

/// The mathematical value of a [`RowData`].
pub ghost struct RowDataView {
    pub channel_label: Option<Seq<char>>,
    pub title: Option<Seq<char>>,
    pub genre: Option<Seq<char>>,
    pub division: Option<Seq<char>>,
    pub year_label: Option<Seq<char>>,
    pub detail_href: Option<Seq<char>>,
}

impl View for RowData {
    type V = RowDataView;

    open spec fn view(&self) -> RowDataView {
        RowDataView {
            channel_label: opt_str_view(self.channel_label),
            title: opt_str_view(self.title),
            genre: opt_str_view(self.genre),
            division: opt_str_view(self.division),
            year_label: opt_str_view(self.year_label),
            detail_href: opt_str_view(self.detail_href),
        }
    }
}

impl DeepView for RowData {
    type V = RowDataView;

    open spec fn deep_view(&self) -> RowDataView {
        self.view()
    }
}

/// The channel name of a raw channel label: the label with one trailing
/// " Programm" suffix removed.
pub open spec fn spec_channel_name(label: Seq<char>) -> Seq<char> {
    spec_strip_suffix(label, " Programm"@)
}

/// The movie a row describes: the title as given; the year parsed from the
/// last space-separated token of the entry label, dropped silently when it
/// is no number; the genre trimmed; of the division, trimmed, only the
/// first space-separated token; no description.
pub open spec fn spec_row_movie(
    title: Seq<char>,
    genre: Option<Seq<char>>,
    division: Option<Seq<char>>,
    year_label: Option<Seq<char>>,
) -> MovieView {
    MovieView {
        title: title,
        year: match year_label {
            Some(a) => spec_parse_u32(spec_last_token(a)),
            None => None,
        },
        genre: match genre {
            Some(g) => Some(trim_of(g)),
            None => None,
        },
        division: match division {
            Some(d) => Some(spec_first_token(trim_of(d))),
            None => None,
        },
        description: None,
    }
}

/// Whether the row carries both required fields: a channel label and a
/// title.
pub open spec fn spec_row_complete(row: RowDataView) -> bool {
    row.channel_label is Some && row.title is Some
}

/// The movie a complete row describes.
pub open spec fn spec_row_movie_of(row: RowDataView) -> MovieView {
    spec_row_movie(row.title->Some_0, row.genre, row.division, row.year_label)
}

/// Build the schedule entry a row describes: the channel name and the
/// movie. A row without a channel label or without a title aborts with
/// `ParsingWebsite`; an absent genre, division or year is simply not set.
pub fn process_row(row: &RowData) -> (r: Result<(String, Movie), Error>)
    ensures
        r is Ok <==> spec_row_complete((*row)@),
        r is Err ==> r->Err_0 == Error::ParsingWebsite,
        r is Ok ==> (r->Ok_0).0@ == spec_channel_name((*row)@.channel_label->Some_0),
        r is Ok ==> (r->Ok_0).1@ == spec_row_movie_of((*row)@),
{
    let label = match &row.channel_label {
        Some(l) => l,
        None => {
            return Err(Error::ParsingWebsite);
        },
    };
    let title = match &row.title {
        Some(t) => t,
        None => {
            return Err(Error::ParsingWebsite);
        },
    };
    let channel_name = strip_suffix_str(label.as_str(), " Programm");
    let mut builder = MovieBuilder::new(title.as_str());
    match &row.genre {
        Some(g) => {
            let trimmed = trim_str(g.as_str());
            builder.with_genre(trimmed.as_str());
        },
        None => {},
    }
    match &row.division {
        Some(d) => {
            let trimmed = trim_str(d.as_str());
            let token = first_space_token(trimmed.as_str());
            builder.with_division(token.as_str());
        },
        None => {},
    }
    match &row.year_label {
        Some(a) => {
            let token = last_space_token(a.as_str());
            match parse_u32(token.as_str()) {
                Some(year) => builder.with_year(year),
                None => {},
            }
        },
        None => {},
    }
    Ok((channel_name, builder.build()))
}

/// The number of schedule rows of the listing markup, under the fixed
/// row selector.
pub uninterp spec fn listing_row_count_of(html: Seq<char>) -> nat;

/// The per-row readings of the listing markup: for every schedule row, in
/// document order, the first descendant matching `selector`, read as the
/// attribute `attr` or, without one, as its inner markup; nothing where
/// the element or the attribute is absent. With the fixed selectors, a
/// pure function of the markup.
pub uninterp spec fn row_fields_of(
    html: Seq<char>,
    selector: Seq<char>,
    attr: Option<Seq<char>>,
) -> Seq<Option<Seq<char>>>;

/// Relies on scraper's Html::parse_document, Selector::parse and the
/// select, attr and inner_html accessors: one reading per schedule row of
/// the markup. The fixed selectors all compile, parsing never fails hard,
/// and every reading yields one entry per row.
#[verifier::external_body]
fn row_fields(html: &str, selector: &str, attr: Option<&str>) -> (r: Vec<Option<String>>)
    requires
        selector@ == CHANNEL_SELECTOR@ || selector@ == TITLE_SELECTOR@ || selector@
            == GENRE_SELECTOR@ || selector@ == DIVISION_SELECTOR@ || selector@
            == ENTRY_SELECTOR@,
    ensures
        r@.len() == listing_row_count_of(html@),
        r.deep_view() == row_fields_of(
            html@,
            selector@,
            match attr {
                Some(a) => Some(a@),
                None => None,
            },
        ),
{
    let rows = scraper::Selector::parse(LIST_ROWS_SELECTOR).unwrap();
    let sel = scraper::Selector::parse(selector).unwrap();
    scraper::Html::parse_document(html).select(&rows).map(
        |row| {
            let element = row.select(&sel).next();
            match attr {
                Some(a) => element.and_then(|e| e.attr(a)).map(String::from),
                None => element.map(|e| e.inner_html()),
            }
        },
    ).collect()
}

/// The plain fields of each schedule row of the listing markup, in
/// document order.
pub open spec fn listing_rows_of(html: Seq<char>) -> Seq<RowDataView> {
    Seq::new(
        listing_row_count_of(html),
        |i: int|
            RowDataView {
                channel_label: row_fields_of(html, CHANNEL_SELECTOR@, Some("title"@))[i],
                title: row_fields_of(html, TITLE_SELECTOR@, None)[i],
                genre: row_fields_of(html, GENRE_SELECTOR@, None)[i],
                division: row_fields_of(html, DIVISION_SELECTOR@, None)[i],
                year_label: row_fields_of(html, ENTRY_SELECTOR@, Some("title"@))[i],
                detail_href: row_fields_of(html, ENTRY_SELECTOR@, Some("href"@))[i],
            },
    )
}

/// Read the plain fields of every schedule row of the listing markup,
/// assembling the six per-row readings field by field.
fn listing_rows(html: &str) -> (r: Vec<RowData>)
    ensures
        r.deep_view() == listing_rows_of(html@),
{
    let channel_labels = row_fields(html, CHANNEL_SELECTOR, Some("title"));
    let titles = row_fields(html, TITLE_SELECTOR, None);
    let genres = row_fields(html, GENRE_SELECTOR, None);
    let divisions = row_fields(html, DIVISION_SELECTOR, None);
    let year_labels = row_fields(html, ENTRY_SELECTOR, Some("title"));
    let hrefs = row_fields(html, ENTRY_SELECTOR, Some("href"));
    let n = channel_labels.len();
    let mut out: Vec<RowData> = Vec::new();
    let mut i: usize = 0;
    while i < n
        invariant
            n == listing_row_count_of(html@),
            i <= n,
            channel_labels@.len() == n,
            titles@.len() == n,
            genres@.len() == n,
            divisions@.len() == n,
            year_labels@.len() == n,
            hrefs@.len() == n,
            channel_labels.deep_view() == row_fields_of(html@, CHANNEL_SELECTOR@, Some("title"@)),
            titles.deep_view() == row_fields_of(html@, TITLE_SELECTOR@, None),
            genres.deep_view() == row_fields_of(html@, GENRE_SELECTOR@, None),
            divisions.deep_view() == row_fields_of(html@, DIVISION_SELECTOR@, None),
            year_labels.deep_view() == row_fields_of(html@, ENTRY_SELECTOR@, Some("title"@)),
            hrefs.deep_view() == row_fields_of(html@, ENTRY_SELECTOR@, Some("href"@)),
            out@.len() == i,
            forall|k: int|
                0 <= k < i ==> (#[trigger] out@[k]).deep_view() == listing_rows_of(html@)[k],
        decreases n - i,
    {
        let row = RowData {
            channel_label: clone_opt_string(&channel_labels[i]),
            title: clone_opt_string(&titles[i]),
            genre: clone_opt_string(&genres[i]),
            division: clone_opt_string(&divisions[i]),
            year_label: clone_opt_string(&year_labels[i]),
            detail_href: clone_opt_string(&hrefs[i]),
        };
        proof {
            assert(channel_labels.deep_view()[i as int] == channel_labels@[i as int].deep_view());
            assert(titles.deep_view()[i as int] == titles@[i as int].deep_view());
            assert(genres.deep_view()[i as int] == genres@[i as int].deep_view());
            assert(divisions.deep_view()[i as int] == divisions@[i as int].deep_view());
            assert(year_labels.deep_view()[i as int] == year_labels@[i as int].deep_view());
            assert(hrefs.deep_view()[i as int] == hrefs@[i as int].deep_view());
        }
        out.push(row);
        i += 1;
    }
    proof {
        assert(out.deep_view() =~= listing_rows_of(html@));
    }
    out
}

/// Whether every listing row carries its required fields.
pub open spec fn spec_rows_complete(rows: Seq<RowDataView>) -> bool {
    forall|i: int| 0 <= i < rows.len() ==> spec_row_complete(#[trigger] rows[i])
}

/// The position of the first row missing a required field, or the row
/// count when every row is complete.
pub open spec fn spec_first_incomplete(rows: Seq<RowDataView>) -> int
    decreases rows.len(),
{
    if rows.len() == 0 {
        0
    } else if !spec_row_complete(rows[0]) {
        0
    } else {
        1 + spec_first_incomplete(rows.subrange(1, rows.len() as int))
    }
}

/// `spec_first_incomplete` is the unique position with only complete rows
/// before it and an incomplete row (or the end) at it.
proof fn lemma_first_incomplete_character(rows: Seq<RowDataView>)
    ensures
        0 <= spec_first_incomplete(rows) <= rows.len(),
        forall|k: int|
            0 <= k < spec_first_incomplete(rows) ==> spec_row_complete(#[trigger] rows[k]),
        spec_first_incomplete(rows) < rows.len() ==> !spec_row_complete(
            rows[spec_first_incomplete(rows)],
        ),
    decreases rows.len(),
{
    if rows.len() == 0 {
    } else if !spec_row_complete(rows[0]) {
    } else {
        let rest = rows.subrange(1, rows.len() as int);
        lemma_first_incomplete_character(rest);
        assert forall|k: int| 0 <= k < spec_first_incomplete(rows) implies spec_row_complete(
            #[trigger] rows[k],
        ) by {
            if k > 0 {
                assert(spec_row_complete(rest[k - 1]));
            }
        }
    }
}

/// The position of the first table entry equal to `name`, if any.
pub open spec fn spec_first_index(table: Seq<Seq<char>>, name: Seq<char>) -> Option<int>
    decreases table.len(),
{
    if table.len() == 0 {
        None
    } else if table[0] == name {
        Some(0)
    } else {
        match spec_first_index(table.subrange(1, table.len() as int), name) {
            Some(i) => Some(1 + i),
            None => None,
        }
    }
}

/// `spec_first_index` finds the least position holding `name`, and nothing
/// exactly when no position holds it.
proof fn lemma_first_index_character(table: Seq<Seq<char>>, name: Seq<char>)
    ensures
        match spec_first_index(table, name) {
            Some(i) => 0 <= i < table.len() && table[i] == name && (forall|k: int|
                0 <= k < i ==> #[trigger] table[k] != name),
            None => forall|k: int| 0 <= k < table.len() ==> #[trigger] table[k] != name,
        },
    decreases table.len(),
{
    if table.len() == 0 {
    } else if table[0] == name {
    } else {
        let rest = table.subrange(1, table.len() as int);
        lemma_first_index_character(rest, name);
        match spec_first_index(table, name) {
            Some(i) => {
                assert(rest[i - 1] == table[i]);
                assert forall|k: int| 0 <= k < i implies #[trigger] table[k] != name by {
                    if k > 0 {
                        assert(rest[k - 1] != name);
                    }
                }
            },
            None => {
                assert forall|k: int| 0 <= k < table.len() implies #[trigger] table[k]
                    != name by {
                    if k > 0 {
                        assert(rest[k - 1] != name);
                    }
                }
            },
        }
    }
}

/// The channel a complete row yields: the label with one trailing
/// " Programm" suffix stripped as the name and, when the name stands at
/// position `idx` of the fixed icon order, the square tile cropped from
/// the sprite at height `ICON_SIZE * idx`; no icon otherwise.
pub open spec fn spec_row_channel(row: RowDataView, sprite: IconView) -> ChannelView {
    let name = spec_channel_name(row.channel_label->Some_0);
    ChannelView {
        name: name,
        icon: match spec_first_index(spec_icon_order(), name) {
            Some(idx) => Some(
                spec_crop(sprite, 0, (idx * ICON_SIZE as int) as u32, ICON_SIZE, ICON_SIZE),
            ),
            None => None,
        },
    }
}

/// The program a complete row list yields, given the decoded sprite: one
/// (channel, movie) pair per row, in row order.
pub open spec fn spec_program_of_rows(rows: Seq<RowDataView>, sprite: IconView) -> Seq<
    (ChannelView, MovieView),
> {
    rows.map_values(|row: RowDataView| (spec_row_channel(row, sprite), spec_row_movie_of(row)))
}

/// The detail-URL cache after processing the rows in order: each row
/// carrying a link maps its fully built movie to that link, later rows
/// shadowing earlier ones; rows without a link change nothing.
pub open spec fn spec_cache_after(
    cache: Map<MovieView, Seq<char>>,
    rows: Seq<RowDataView>,
) -> Map<MovieView, Seq<char>>
    decreases rows.len(),
{
    if rows.len() == 0 {
        cache
    } else {
        let prev = spec_cache_after(cache, rows.drop_last());
        match rows.last().detail_href {
            Some(href) => prev.insert(spec_row_movie_of(rows.last()), href),
            None => prev,
        }
    }
}

/// Processing rows never removes a cache key: the cache only gains
/// entries.
pub proof fn lemma_cache_after_keeps_keys(
    cache: Map<MovieView, Seq<char>>,
    rows: Seq<RowDataView>,
    key: MovieView,
)
    requires
        cache.contains_key(key),
    ensures
        spec_cache_after(cache, rows).contains_key(key),
    decreases rows.len(),
{
    if rows.len() > 0 {
        lemma_cache_after_keeps_keys(cache, rows.drop_last(), key);
    }
}

impl TvSpielfilm {
    /// Build the program from the fetched listing markup and the fetched
    /// icon sprite bytes. The build succeeds exactly when the sprite
    /// decodes and every schedule row carries a channel label and a
    /// title; it then returns one (channel, movie) pair per row in source
    /// order — the channel named by its stripped label and carrying its
    /// sprite tile when it stands in the fixed icon order — and remembers
    /// each linked row's movie in the detail-URL cache. Any failure is
    /// `ParsingWebsite` and returns no partial program; the rows before a
    /// failing row still populate the cache, as scanning in order does.
    pub fn build_program(&mut self, html: &str, icon_bytes: &[u8]) -> (r: Result<Program, Error>)
        ensures
            ({
                let rows = listing_rows_of(html@);
                match sprite_of(icon_bytes@) {
                    None => r == Err::<Program, Error>(Error::ParsingWebsite) && final(self)@
                        == old(self)@,
                    Some(sprite) => {
                        &&& (r is Ok <==> spec_rows_complete(rows))
                        &&& (r is Ok ==> (r->Ok_0)@ == spec_program_of_rows(rows, sprite)
                            && final(self)@ == spec_cache_after(old(self)@, rows))
                        &&& (r is Err ==> r->Err_0 == Error::ParsingWebsite && final(self)@
                            == spec_cache_after(
                            old(self)@,
                            rows.subrange(0, spec_first_incomplete(rows)),
                        ))
                    },
                }
            }),
    {
        let sprite = match decode_webp_icon(icon_bytes) {
            Some(s) => s,
            None => {
                return Err(Error::ParsingWebsite);
            },
        };
        let rows = listing_rows(html);
        let ghost rows_v = listing_rows_of(html@);
        let table = icon_order_table();
        let mut program = Program::new();
        proof {
            assert(rows_v.subrange(0, 0) =~= Seq::<RowDataView>::empty());
            assert(program@ =~= spec_program_of_rows(rows_v.subrange(0, 0), sprite@));
            assert(self@ == spec_cache_after(old(self)@, rows_v.subrange(0, 0)));
        }
        let mut i: usize = 0;
        while i < rows.len()
            invariant
                rows.deep_view() == rows_v,
                rows_v == listing_rows_of(html@),
                i <= rows@.len(),
                rows@.len() == rows_v.len(),
                Some(sprite@) == sprite_of(icon_bytes@),
                sprite@.wf(),
                table@.len() == spec_icon_order().len(),
                forall|k: int|
                    0 <= k < table@.len() ==> (#[trigger] table@[k])@ == spec_icon_order()[k],
                forall|k: int| 0 <= k < i ==> spec_row_complete(#[trigger] rows_v[k]),
                program@ == spec_program_of_rows(rows_v.subrange(0, i as int), sprite@),
                self@ == spec_cache_after(old(self)@, rows_v.subrange(0, i as int)),
            decreases rows@.len() - i,
        {
            let data = &rows[i];
            let ghost rv = rows_v[i as int];
            proof {
                assert(rows.deep_view()[i as int] == rows@[i as int].deep_view());
                assert((*data)@ == rv);
            }
            let entry = match process_row(data) {
                Ok(e) => e,
                Err(e) => {
                    proof {
                        lemma_first_incomplete_character(rows_v);
                        let fi = spec_first_incomplete(rows_v);
                        if fi < i {
                            assert(spec_row_complete(rows_v[fi]));
                            assert(false);
                        }
                        if fi > i {
                            assert(spec_row_complete(rows_v[i as int]));
                            assert(false);
                        }
                        assert(!spec_rows_complete(rows_v));
                    }
                    return Err(e);
                },
            };
            let (channel_name, movie) = entry;
            let mut channel = Channel::new(channel_name.as_str());
            proof {
                assert(channel_name@ == spec_channel_name(rv.channel_label->Some_0));
                assert(movie@ == spec_row_movie_of(rv));
            }
            match position_of(&table, channel_name.as_str()) {
                Some(index) => {
                    proof {
                        lemma_first_index_character(spec_icon_order(), channel_name@);
                        match spec_first_index(spec_icon_order(), channel_name@) {
                            Some(si) => {
                                if si < index {
                                    assert(table@[si]@ != channel_name@);
                                    assert(false);
                                }
                                if si > index {
                                    assert(spec_icon_order()[index as int] != channel_name@);
                                    assert(false);
                                }
                            },
                            None => {
                                assert(spec_icon_order()[index as int] != channel_name@);
                                assert(false);
                            },
                        }
                    }
                    let tile = crop_tile(&sprite, 0, (index as u32) * ICON_SIZE, ICON_SIZE,
                        ICON_SIZE);
                    channel.set_icon(Some(tile));
                    proof {
                        assert(channel@ == spec_row_channel(rv, sprite@));
                    }
                },
                None => {
                    proof {
                        lemma_first_index_character(spec_icon_order(), channel_name@);
                        match spec_first_index(spec_icon_order(), channel_name@) {
                            Some(si) => {
                                assert(table@[si]@ != channel_name@);
                                assert(false);
                            },
                            None => {},
                        }
                        assert(channel@ == spec_row_channel(rv, sprite@));
                    }
                },
            }
            match &data.detail_href {
                Some(href) => {
                    self.cache_insert(movie.clone(), href.clone());
                },
                None => {},
            }
            proof {
                assert(rows_v.subrange(0, i + 1).drop_last() =~= rows_v.subrange(0, i as int));
                assert(rows_v.subrange(0, i + 1).last() == rv);
                assert(self@ == spec_cache_after(old(self)@, rows_v.subrange(0, i + 1)));
            }
            program.add(channel, movie);
            proof {
                assert(program@ =~= spec_program_of_rows(rows_v.subrange(0, i + 1), sprite@));
            }
            i += 1;
        }
        proof {
            assert(rows_v.subrange(0, rows_v.len() as int) =~= rows_v);
            lemma_first_incomplete_character(rows_v);
            let fi = spec_first_incomplete(rows_v);
            if fi < rows_v.len() {
                assert(spec_row_complete(rows_v[fi]));
                assert(false);
            }
        }
        Ok(program)
    }
}

/// The join of description fragments: each fragment followed by one
/// blank-line separator.
pub open spec fn spec_join_fragments(fs: Seq<Seq<char>>) -> Seq<char>
    decreases fs.len(),
{
    if fs.len() == 0 {
        Seq::empty()
    } else {
        spec_join_fragments(fs.drop_last()) + fs.last() + "\n\n"@
    }
}

/// Join description fragments, each followed by a blank-line separator.
pub fn join_fragments(fragments: &Vec<String>) -> (r: String)
    ensures
        r@ == spec_join_fragments(fragments@.map_values(|s: String| s@)),
{
    let ghost fs = fragments@.map_values(|s: String| s@);
    let mut out = String::new();
    let mut i: usize = 0;
    while i < fragments.len()
        invariant
            fs == fragments@.map_values(|s: String| s@),
            i <= fragments@.len(),
            out@ == spec_join_fragments(fs.subrange(0, i as int)),
        decreases fragments@.len() - i,
    {
        out.append(fragments[i].as_str());
        out.append("\n\n");
        proof {
            assert(fs.subrange(0, i + 1).drop_last() =~= fs.subrange(0, i as int));
            assert(fs.subrange(0, i + 1).last() == fs[i as int]);
            assert(out@ =~= spec_join_fragments(fs.subrange(0, i + 1)));
        }
        i += 1;
    }
    proof {
        assert(fs.subrange(0, fs.len() as int) =~= fs);
    }
    out
}

/// What the description scraper extracts from a detail page: the inner
/// markup of each matched description paragraph, in document order. With
/// the fixed selector, the fragments are a function of the markup alone.
pub uninterp spec fn description_fragments_of(html: Seq<char>) -> Seq<Seq<char>>;

/// Relies on scraper's Html::parse_document, Selector::parse and the
/// select and inner_html accessors: parses the detail page and reads the
/// inner markup of every matched description paragraph. Parsing never
/// fails hard, and the fixed selector compiles.
#[verifier::external_body]
fn description_paragraphs(html: &str) -> (r: Vec<String>)
    ensures
        r.deep_view() == description_fragments_of(html@),
{
    let sel = scraper::Selector::parse(DESCRIPTION_SELECTOR).unwrap();
    let document = scraper::Html::parse_document(html);
    document.select(&sel).map(|e| e.inner_html()).collect()
}

impl TvSpielfilm {
    /// Enrich a movie from its fetched detail page: a copy of the movie
    /// with only the description replaced by the page's matched
    /// description paragraphs, each followed by a blank line — an empty
    /// description when none matched.
    pub fn enrich_from_page(movie: &Movie, html: &str) -> (r: Movie)
        ensures
            r@ == (MovieView {
                description: Some(spec_join_fragments(description_fragments_of(html@))),
                ..movie@
            }),
    {
        let fragments = description_paragraphs(html);
        let description = join_fragments(&fragments);
        proof {
            assert(fragments@.map_values(|s: String| s@) =~= fragments.deep_view());
        }
        let mut enriched = movie.clone();
        enriched.set_description(Some(description));
        enriched
    }
}

} // verus!
