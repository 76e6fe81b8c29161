//! The attribute-filter engine: single attribute predicates for channels and
//! movies, groups of predicates matched by logical OR, and the
//! [`ProgramFilter`] that removes matching (channel, movie) pairs from a
//! [`Program`].

use vstd::prelude::*;

use core::marker::PhantomData;

use crate::program::{Channel, ChannelView, Movie, MovieView, Program};
use crate::text::str_eq;

verus! {

/// One record of the serialized filter list: a kind tag and a value.
#[derive(Debug, PartialEq, Eq)]
pub struct Record {
    pub tag: String,
    pub value: String,
}

impl View for Record {
    type V = (Seq<char>, Seq<char>);

    open spec fn view(&self) -> (Seq<char>, Seq<char>) {
        (self.tag@, self.value@)
    }
}

impl Clone for Record {
    /// A clone equals the original.
    fn clone(&self) -> (r: Self)
        ensures
            r == *self,
    {
        Record { tag: self.tag.clone(), value: self.value.clone() }
    }
}

/// A `Filter` for the type `T`.
pub trait Filter<T: View>: Sized {
    /// What it means for this filter to match the given item.
    spec fn spec_matches(&self, item: &T) -> bool;

    /// Whether the filter matches the given item.
    fn matches(&self, item: &T) -> (r: bool)
        ensures
            r == self.spec_matches(item),
    ;
}

/// A record codec for an attribute: every attribute serializes to one
/// two-field record, and a record with a recognized tag decodes back.
pub trait RecordConv: View + Sized {
    /// The record this attribute serializes to.
    spec fn spec_to_record(&self) -> (Seq<char>, Seq<char>);

    /// The attribute value a record decodes to, when its tag is recognized.
    spec fn spec_of_record(rec: (Seq<char>, Seq<char>)) -> Option<Self::V>;

    /// Serialize this attribute as a record.
    fn to_record(&self) -> (r: Record)
        ensures
            r@ == self.spec_to_record(),
    ;

    /// Decode an attribute from a record; `Err` when the tag is not
    /// recognized.
    fn try_from_record(rec: &Record) -> (r: Result<Self, ()>)
        ensures
            r is Ok <==> Self::spec_of_record(rec@) is Some,
            r is Ok ==> Self::spec_of_record(rec@) == Some((r->Ok_0)@),
    ;
}

/// Whether at least one filter of `fs` matches `item`.
pub open spec fn group_matches<T: View, F: Filter<T>>(fs: Seq<F>, item: &T) -> bool {
    exists|i: int| 0 <= i < fs.len() && (#[trigger] fs[i]).spec_matches(item)
}

/// A group of filters of type `F` filtering type `T`.
pub trait FilterGroup<T: View, F: Filter<T>>: Sized {
    /// The predicates the group holds, in insertion order.
    spec fn filters_seq(&self) -> Seq<F>;

    /// Create a new group with no filters.
    fn new() -> (r: Self)
        ensures
            r.filters_seq() == Seq::<F>::empty(),
    ;

    /// Append a filter to the group: no deduplication, no limit.
    fn add(&mut self, filter: F)
        ensures
            final(self).filters_seq() == old(self).filters_seq().push(filter),
    ;

    /// Whether at least one filter of the group matches; always false for an
    /// empty group.
    fn matches(&self, item: &T) -> (r: bool)
        ensures
            r == group_matches(self.filters_seq(), item),
    ;
}

/// The attributes of a `Channel` used for filtering.
#[derive(Debug, PartialEq, Eq)]
pub enum ChannelAttribute {
    /// The channel name.
    Name(String),
}

/// The mathematical value of a [`ChannelAttribute`].
pub ghost enum ChannelAttrView {
    Name(Seq<char>),
}

impl View for ChannelAttribute {
    type V = ChannelAttrView;

    open spec fn view(&self) -> ChannelAttrView {
        match *self {
            ChannelAttribute::Name(ref n) => ChannelAttrView::Name(n@),
        }
    }
}

impl Clone for ChannelAttribute {
    /// A clone equals the original.
    fn clone(&self) -> (r: Self)
        ensures
            r == *self,
    {
        match self {
            ChannelAttribute::Name(n) => ChannelAttribute::Name(n.clone()),
        }
    }
}

/// Whether the channel attribute predicate matches the channel: name
/// predicates test exact character equality.
pub open spec fn channel_attr_matches(a: ChannelAttrView, c: ChannelView) -> bool {
    match a {
        ChannelAttrView::Name(n) => n == c.name,
    }
}

impl Filter<Channel> for ChannelAttribute {
    open spec fn spec_matches(&self, item: &Channel) -> bool {
        channel_attr_matches((*self)@, (*item)@)
    }

    fn matches(&self, item: &Channel) -> (r: bool) {
        match self {
            ChannelAttribute::Name(n) => item.name_is(n),
        }
    }
}

/// The record a channel attribute serializes to.
pub open spec fn spec_channel_record(a: ChannelAttrView) -> (Seq<char>, Seq<char>) {
    match a {
        ChannelAttrView::Name(n) => ("name"@, n),
    }
}

/// The channel attribute a record decodes to: only the tag `name` is
/// recognized.
pub open spec fn spec_channel_of_record(rec: (Seq<char>, Seq<char>)) -> Option<ChannelAttrView> {
    if rec.0 == "name"@ {
        Some(ChannelAttrView::Name(rec.1))
    } else {
        None
    }
}

impl RecordConv for ChannelAttribute {
    open spec fn spec_to_record(&self) -> (Seq<char>, Seq<char>) {
        spec_channel_record((*self)@)
    }

    open spec fn spec_of_record(rec: (Seq<char>, Seq<char>)) -> Option<ChannelAttrView> {
        spec_channel_of_record(rec)
    }

    fn to_record(&self) -> (r: Record) {
        match self {
            ChannelAttribute::Name(n) => Record { tag: "name".to_owned(), value: n.clone() },
        }
    }

    fn try_from_record(rec: &Record) -> (r: Result<Self, ()>) {
        if str_eq(rec.tag.as_str(), "name") {
            Ok(ChannelAttribute::Name(rec.value.clone()))
        } else {
            Err(())
        }
    }
}

/// The attributes of a `Movie` used for filtering.
#[derive(Debug, PartialEq, Eq)]
pub enum MovieAttribute {
    /// The movie title.
    Title(String),
    /// The movie genre.
    Genre(String),
    /// The movie division.
    Division(String),
}

/// The mathematical value of a [`MovieAttribute`].
pub ghost enum MovieAttrView {
    Title(Seq<char>),
    Genre(Seq<char>),
    Division(Seq<char>),
}

impl View for MovieAttribute {
    type V = MovieAttrView;

    open spec fn view(&self) -> MovieAttrView {
        match *self {
            MovieAttribute::Title(ref t) => MovieAttrView::Title(t@),
            MovieAttribute::Genre(ref g) => MovieAttrView::Genre(g@),
            MovieAttribute::Division(ref d) => MovieAttrView::Division(d@),
        }
    }
}

impl Clone for MovieAttribute {
    /// A clone equals the original.
    fn clone(&self) -> (r: Self)
        ensures
            r == *self,
    {
        match self {
            MovieAttribute::Title(t) => MovieAttribute::Title(t.clone()),
            MovieAttribute::Genre(g) => MovieAttribute::Genre(g.clone()),
            MovieAttribute::Division(d) => MovieAttribute::Division(d.clone()),
        }
    }
}

/// Whether the movie attribute predicate matches the movie: exact character
/// equality, and a predicate on an absent optional field never matches.
pub open spec fn movie_attr_matches(a: MovieAttrView, m: MovieView) -> bool {
    match a {
        MovieAttrView::Title(t) => t == m.title,
        MovieAttrView::Genre(g) => Some(g) == m.genre,
        MovieAttrView::Division(d) => Some(d) == m.division,
    }
}

impl Filter<Movie> for MovieAttribute {
    open spec fn spec_matches(&self, item: &Movie) -> bool {
        movie_attr_matches((*self)@, (*item)@)
    }

    fn matches(&self, item: &Movie) -> (r: bool) {
        match self {
            MovieAttribute::Title(t) => item.title_is(t),
            MovieAttribute::Genre(g) => item.genre_is(g),
            MovieAttribute::Division(d) => item.division_is(d),
        }
    }
}

/// The record a movie attribute serializes to.
pub open spec fn spec_movie_record(a: MovieAttrView) -> (Seq<char>, Seq<char>) {
    match a {
        MovieAttrView::Title(t) => ("title"@, t),
        MovieAttrView::Genre(g) => ("genre"@, g),
        MovieAttrView::Division(d) => ("division"@, d),
    }
}

/// The movie attribute a record decodes to: the tags `title`, `genre` and
/// `division` are recognized.
pub open spec fn spec_movie_of_record(rec: (Seq<char>, Seq<char>)) -> Option<MovieAttrView> {
    if rec.0 == "title"@ {
        Some(MovieAttrView::Title(rec.1))
    } else if rec.0 == "genre"@ {
        Some(MovieAttrView::Genre(rec.1))
    } else if rec.0 == "division"@ {
        Some(MovieAttrView::Division(rec.1))
    } else {
        None
    }
}

impl RecordConv for MovieAttribute {
    open spec fn spec_to_record(&self) -> (Seq<char>, Seq<char>) {
        spec_movie_record((*self)@)
    }

    open spec fn spec_of_record(rec: (Seq<char>, Seq<char>)) -> Option<MovieAttrView> {
        spec_movie_of_record(rec)
    }

    fn to_record(&self) -> (r: Record) {
        match self {
            MovieAttribute::Title(t) => Record { tag: "title".to_owned(), value: t.clone() },
            MovieAttribute::Genre(g) => Record { tag: "genre".to_owned(), value: g.clone() },
            MovieAttribute::Division(d) => Record {
                tag: "division".to_owned(),
                value: d.clone(),
            },
        }
    }

    fn try_from_record(rec: &Record) -> (r: Result<Self, ()>) {
        if str_eq(rec.tag.as_str(), "title") {
            Ok(MovieAttribute::Title(rec.value.clone()))
        } else if str_eq(rec.tag.as_str(), "genre") {
            Ok(MovieAttribute::Genre(rec.value.clone()))
        } else if str_eq(rec.tag.as_str(), "division") {
            Ok(MovieAttribute::Division(rec.value.clone()))
        } else {
            Err(())
        }
    }
}

/// A filter group: an ordered collection of attribute predicates for the
/// entity type `T`, matching an item when any one predicate matches.
#[derive(Debug, PartialEq, Eq)]
pub struct Filters<T: View, F: Filter<T>> {
    filters: Vec<F>,
    phantom: PhantomData<T>,
}

impl<T: View, F: Filter<T>> FilterGroup<T, F> for Filters<T, F> {
    closed spec fn filters_seq(&self) -> Seq<F> {
        self.filters@
    }

    fn new() -> (r: Self) {
        Filters { filters: Vec::new(), phantom: PhantomData }
    }

    fn add(&mut self, filter: F) {
        self.filters.push(filter);
    }

    fn matches(&self, item: &T) -> (r: bool) {
        let mut i: usize = 0;
        while i < self.filters.len()
            invariant
                i <= self.filters@.len(),
                forall|k: int| 0 <= k < i ==> !(#[trigger] self.filters@[k]).spec_matches(item),
            decreases self.filters@.len() - i,
        {
            if self.filters[i].matches(item) {
                return true;
            }
            i += 1;
        }
        false
    }
}

impl<T: View, F: Filter<T> + Clone> Clone for Filters<T, F> {
    /// A clone holds a clone of each predicate, in the same order.
    fn clone(&self) -> (r: Self)
        ensures
            r.filters_seq().len() == self.filters_seq().len(),
            forall|i: int|
                0 <= i < self.filters_seq().len() ==> cloned::<F>(
                    self.filters_seq()[i],
                    #[trigger] r.filters_seq()[i],
                ),
    {
        let mut filters: Vec<F> = Vec::new();
        let mut i: usize = 0;
        while i < self.filters.len()
            invariant
                i <= self.filters@.len(),
                filters@.len() == i,
                forall|k: int|
                    0 <= k < i ==> cloned::<F>(self.filters@[k], #[trigger] filters@[k]),
            decreases self.filters@.len() - i,
        {
            filters.push(self.filters[i].clone());
            i += 1;
        }
        Filters { filters, phantom: PhantomData }
    }
}

impl<T: View, F: Filter<T> + RecordConv> Filters<T, F> {
    /// Serialize every predicate of the group, in order.
    pub fn to_records(&self) -> (r: Vec<Record>)
        ensures
            r@.len() == self.filters_seq().len(),
            forall|i: int|
                0 <= i < r@.len() ==> (#[trigger] r@[i])@ == self.filters_seq()[i].spec_to_record(),
    {
        let mut out: Vec<Record> = Vec::new();
        let mut i: usize = 0;
        while i < self.filters.len()
            invariant
                i <= self.filters@.len(),
                out@.len() == i,
                forall|k: int|
                    0 <= k < i ==> (#[trigger] out@[k])@ == self.filters@[k].spec_to_record(),
            decreases self.filters@.len() - i,
        {
            out.push(self.filters[i].to_record());
            i += 1;
        }
        out
    }

    /// Decode a group from records: every record must decode to one
    /// predicate, else the whole conversion fails.
    pub fn try_from_records(records: &Vec<Record>) -> (r: Result<Self, ()>)
        ensures
            r is Ok <==> (forall|i: int|
                0 <= i < records@.len() ==> F::spec_of_record((#[trigger] records@[i])@) is Some),
            r is Ok ==> (r->Ok_0).filters_seq().len() == records@.len(),
            r is Ok ==> (forall|i: int|
                0 <= i < records@.len() ==> Some(((#[trigger] (r->Ok_0).filters_seq()[i]))@)
                    == F::spec_of_record(records@[i]@)),
    {
        let mut filters: Vec<F> = Vec::new();
        let mut i: usize = 0;
        while i < records.len()
            invariant
                i <= records@.len(),
                filters@.len() == i,
                forall|k: int|
                    0 <= k < i ==> F::spec_of_record((#[trigger] records@[k])@) is Some,
                forall|k: int|
                    0 <= k < i ==> Some((#[trigger] filters@[k])@) == F::spec_of_record(
                        records@[k]@,
                    ),
            decreases records@.len() - i,
        {
            match F::try_from_record(&records[i]) {
                Ok(f) => {
                    filters.push(f);
                },
                Err(_) => {
                    return Err(());
                },
            }
            i += 1;
        }
        Ok(Filters { filters, phantom: PhantomData })
    }
}

impl<T: View, F: Filter<T>> Filters<T, F> {
    /// Collect a group from a vector of predicates, keeping their order.
    pub fn from_vec(filters: Vec<F>) -> (r: Self)
        ensures
            r.filters_seq() == filters@,
    {
        Filters { filters, phantom: PhantomData }
    }
}

/// A filter for either entity kind, tagged by the kind it applies to.
#[derive(Debug, PartialEq, Eq)]
pub enum FilterType {
    Channel(ChannelAttribute),
    Movie(MovieAttribute),
}

/// The mathematical value of a [`FilterType`].
pub ghost enum FilterTypeView {
    Channel(ChannelAttrView),
    Movie(MovieAttrView),
}

impl View for FilterType {
    type V = FilterTypeView;

    open spec fn view(&self) -> FilterTypeView {
        match *self {
            FilterType::Channel(ref a) => FilterTypeView::Channel(a@),
            FilterType::Movie(ref a) => FilterTypeView::Movie(a@),
        }
    }
}

/// The mathematical value of a [`ProgramFilter`]: its channel predicates and
/// its movie predicates, each in insertion order.
pub ghost struct ProgramFilterView {
    pub channels: Seq<ChannelAttrView>,
    pub movies: Seq<MovieAttrView>,
}

/// Adding one tagged attribute appends it to the sub-filter of its kind.
pub open spec fn pf_add(v: ProgramFilterView, f: FilterTypeView) -> ProgramFilterView {
    match f {
        FilterTypeView::Channel(a) => ProgramFilterView { channels: v.channels.push(a), ..v },
        FilterTypeView::Movie(a) => ProgramFilterView { movies: v.movies.push(a), ..v },
    }
}

/// Whether the program filter suppresses the pair: some channel predicate
/// matches the channel, or some movie predicate matches the movie.
pub open spec fn pf_matches(v: ProgramFilterView, p: (ChannelView, MovieView)) -> bool {
    (exists|i: int| 0 <= i < v.channels.len() && channel_attr_matches(#[trigger] v.channels[i], p.0))
        || (exists|i: int|
        0 <= i < v.movies.len() && movie_attr_matches(#[trigger] v.movies[i], p.1))
}

/// The pairs of `prog` that the filter does not suppress, in order.
pub open spec fn spec_filter_program(
    v: ProgramFilterView,
    prog: Seq<(ChannelView, MovieView)>,
) -> Seq<(ChannelView, MovieView)> {
    prog.filter(|p: (ChannelView, MovieView)| !pf_matches(v, p))
}

/// The serialized record list of a filter: all channel records first, then
/// all movie records. The order is part of the on-disk contract.
pub open spec fn spec_encode(v: ProgramFilterView) -> Seq<(Seq<char>, Seq<char>)> {
    v.channels.map_values(|a: ChannelAttrView| spec_channel_record(a)) + v.movies.map_values(
        |a: MovieAttrView| spec_movie_record(a),
    )
}

/// Whether exactly one of the two entity decoders recognizes the record's
/// tag. A tag recognized by neither — or, defensively, by both — makes the
/// record list malformed.
pub open spec fn record_recognized(rec: (Seq<char>, Seq<char>)) -> bool {
    (spec_channel_of_record(rec) is Some) != (spec_movie_of_record(rec) is Some)
}

/// The channel attributes of a record list, in order: the records whose tag
/// the channel decoder recognizes, decoded.
pub open spec fn decoded_channels(rs: Seq<(Seq<char>, Seq<char>)>) -> Seq<ChannelAttrView>
    decreases rs.len(),
{
    if rs.len() == 0 {
        Seq::empty()
    } else {
        let rest = decoded_channels(rs.drop_last());
        match spec_channel_of_record(rs.last()) {
            Some(a) => rest.push(a),
            None => rest,
        }
    }
}

/// The movie attributes of a record list, in order: the records whose tag
/// the movie decoder recognizes, decoded.
pub open spec fn decoded_movies(rs: Seq<(Seq<char>, Seq<char>)>) -> Seq<MovieAttrView>
    decreases rs.len(),
{
    if rs.len() == 0 {
        Seq::empty()
    } else {
        let rest = decoded_movies(rs.drop_last());
        match spec_movie_of_record(rs.last()) {
            Some(a) => rest.push(a),
            None => rest,
        }
    }
}

/// Extending a record list by one record extends what it decodes to by that
/// record's decoded attribute, on the side whose decoder recognizes it.
proof fn lemma_decoded_step(rs: Seq<(Seq<char>, Seq<char>)>, i: int)
    requires
        0 <= i < rs.len(),
    ensures
        decoded_channels(rs.subrange(0, i + 1)) == (match spec_channel_of_record(rs[i]) {
            Some(a) => decoded_channels(rs.subrange(0, i)).push(a),
            None => decoded_channels(rs.subrange(0, i)),
        }),
        decoded_movies(rs.subrange(0, i + 1)) == (match spec_movie_of_record(rs[i]) {
            Some(a) => decoded_movies(rs.subrange(0, i)).push(a),
            None => decoded_movies(rs.subrange(0, i)),
        }),
{
    let p = rs.subrange(0, i + 1);
    assert(p.drop_last() =~= rs.subrange(0, i));
    assert(p.last() == rs[i]);
}

/// What a record list decodes to: nothing, when any record's tag is not
/// recognized by exactly one decoder; else the filter holding the channel
/// attributes and the movie attributes, each in list order.
pub open spec fn spec_decode(rs: Seq<(Seq<char>, Seq<char>)>) -> Option<ProgramFilterView> {
    if forall|i: int| 0 <= i < rs.len() ==> record_recognized(#[trigger] rs[i]) {
        Some(ProgramFilterView { channels: decoded_channels(rs), movies: decoded_movies(rs) })
    } else {
        None
    }
}

/// Filter out unwanted pairs of a program. A pair is removed when the
/// channel or the movie matches one of the filters.
#[derive(Debug, PartialEq, Eq)]
pub struct ProgramFilter {
    channel_filters: Filters<Channel, ChannelAttribute>,
    movie_filters: Filters<Movie, MovieAttribute>,
}

impl View for ProgramFilter {
    type V = ProgramFilterView;

    closed spec fn view(&self) -> ProgramFilterView {
        ProgramFilterView {
            channels: self.channel_filters.filters_seq().map_values(
                |a: ChannelAttribute| a@,
            ),
            movies: self.movie_filters.filters_seq().map_values(|a: MovieAttribute| a@),
        }
    }
}



/// A channel filter group matches a channel exactly when some channel
/// attribute view in the group's view matches the channel's view.
proof fn lemma_channel_group_view(fs: Seq<ChannelAttribute>, vs: Seq<ChannelAttrView>, item: &Channel)
    requires
        vs == fs.map_values(|a: ChannelAttribute| a@),
    ensures
        group_matches(fs, item) <==> (exists|i: int|
            0 <= i < vs.len() && channel_attr_matches(#[trigger] vs[i], (*item)@)),
{
    if group_matches(fs, item) {
        let i = choose|i: int| 0 <= i < fs.len() && (#[trigger] fs[i]).spec_matches(item);
        assert(vs[i] == fs[i]@);
        assert(channel_attr_matches(vs[i], (*item)@));
    }
    if exists|i: int| 0 <= i < fs.len() && channel_attr_matches(#[trigger] vs[i], (*item)@) {
        let i = choose|i: int| 0 <= i < fs.len() && channel_attr_matches(#[trigger] vs[i], (*item)@);
        assert(vs[i] == fs[i]@);
        assert(fs[i].spec_matches(item));
    }
}

/// A movie filter group matches a movie exactly when some movie attribute
/// view in the group's view matches the movie's view.
proof fn lemma_movie_group_view(fs: Seq<MovieAttribute>, vs: Seq<MovieAttrView>, item: &Movie)
    requires
        vs == fs.map_values(|a: MovieAttribute| a@),
    ensures
        group_matches(fs, item) <==> (exists|i: int|
            0 <= i < vs.len() && movie_attr_matches(#[trigger] vs[i], (*item)@)),
{
    if group_matches(fs, item) {
        let i = choose|i: int| 0 <= i < fs.len() && (#[trigger] fs[i]).spec_matches(item);
        assert(vs[i] == fs[i]@);
        assert(movie_attr_matches(vs[i], (*item)@));
    }
    if exists|i: int| 0 <= i < fs.len() && movie_attr_matches(#[trigger] vs[i], (*item)@) {
        let i = choose|i: int| 0 <= i < fs.len() && movie_attr_matches(#[trigger] vs[i], (*item)@);
        assert(vs[i] == fs[i]@);
        assert(fs[i].spec_matches(item));
    }
}

impl ProgramFilter {
    /// Create a new, empty `ProgramFilter`.
    pub fn new() -> (r: Self)
        ensures
            r@.channels == Seq::<ChannelAttrView>::empty(),
            r@.movies == Seq::<MovieAttrView>::empty(),
    {
        let r = ProgramFilter {
            channel_filters: Filters::new(),
            movie_filters: Filters::new(),
        };
        proof {
            assert(r@.channels =~= Seq::<ChannelAttrView>::empty());
            assert(r@.movies =~= Seq::<MovieAttrView>::empty());
        }
        r
    }

    /// Add a filter of type `FilterType`, dispatching on its kind.
    pub fn add(&mut self, filter: FilterType)
        ensures
            final(self)@ == pf_add(old(self)@, filter@),
    {
        match filter {
            FilterType::Channel(c) => self.add_channel_filter(c),
            FilterType::Movie(m) => self.add_movie_filter(m),
        }
    }

    /// Add a `ChannelAttribute` filter.
    pub fn add_channel_filter(&mut self, filter: ChannelAttribute)
        ensures
            final(self)@.channels == old(self)@.channels.push(filter@),
            final(self)@.movies == old(self)@.movies,
    {
        let ghost pre = self.channel_filters.filters_seq();
        self.channel_filters.add(filter);
        proof {
            assert(self@.channels =~= old(self)@.channels.push(filter@));
        }
    }

    /// Add a `MovieAttribute` filter.
    pub fn add_movie_filter(&mut self, filter: MovieAttribute)
        ensures
            final(self)@.movies == old(self)@.movies.push(filter@),
            final(self)@.channels == old(self)@.channels,
    {
        let ghost pre = self.movie_filters.filters_seq();
        self.movie_filters.add(filter);
        proof {
            assert(self@.movies =~= old(self)@.movies.push(filter@));
        }
    }

    /// Check whether any filter matches the given pair: the channel
    /// sub-filter on the channel, or the movie sub-filter on the movie.
    pub fn matches(&self, pair: (&Channel, &Movie)) -> (r: bool)
        ensures
            r == pf_matches(self@, ((*pair.0)@, (*pair.1)@)),
    {
        let r1 = self.channel_filters.matches(pair.0);
        let r2 = self.movie_filters.matches(pair.1);
        proof {
            lemma_channel_group_view(self.channel_filters.filters_seq(), self@.channels, pair.0);
            lemma_movie_group_view(self.movie_filters.filters_seq(), self@.movies, pair.1);
        }
        r1 || r2
    }

    /// Filter the unwanted pairs out of the program: the result keeps
    /// exactly the pairs that no filter matches, in their original order.
    pub fn filter(&self, program: &Program) -> (r: Program)
        ensures
            r@ == spec_filter_program(self@, program@),
    {
        let mut result = Program::new();
        let n = program.len();
        let mut i: usize = 0;
        while i < n
            invariant
                n == program@.len(),
                i <= n,
                result@ == spec_filter_program(self@, program@.subrange(0, i as int)),
            decreases n - i,
        {
            let ghost prefix = program@.subrange(0, i as int);
            let pair = program.get(i);
            if !self.matches((&pair.0, &pair.1)) {
                result.add(pair.0.clone(), pair.1.clone());
            }
            proof {
                let pred = |p: (ChannelView, MovieView)| !pf_matches(self@, p);
                let one = seq![program@[i as int]];
                assert(program@.subrange(0, i + 1) =~= prefix + one);
                Seq::<(ChannelView, MovieView)>::filter_distributes_over_add(prefix, one, pred);
                reveal_with_fuel(Seq::filter, 2);
                assert(one.drop_last() =~= Seq::<(ChannelView, MovieView)>::empty());
                if pred(program@[i as int]) {
                    assert(one.filter(pred) =~= one);
                    assert(result@ =~= prefix.filter(pred) + one);
                } else {
                    assert(one.filter(pred) =~= Seq::<(ChannelView, MovieView)>::empty());
                    assert(result@ =~= prefix.filter(pred) + one.filter(pred));
                }
            }
            i += 1;
        }
        proof {
            assert(program@.subrange(0, n as int) =~= program@);
        }
        result
    }

    /// Serialize the filter as records: every channel record, in order,
    /// before every movie record.
    pub fn to_records(&self) -> (r: Vec<Record>)
        ensures
            r@.map_values(|x: Record| x@) == spec_encode(self@),
    {
        let mut out = self.channel_filters.to_records();
        let mut movies = self.movie_filters.to_records();
        let ghost chans = out@;
        let ghost movs = movies@;
        out.append(&mut movies);
        proof {
            assert(out@.map_values(|x: Record| x@) =~= spec_encode(self@)) by {
                assert(out@ =~= chans + movs);
                assert forall|i: int| 0 <= i < out@.len() implies (#[trigger] out@[i])@
                    == spec_encode(self@)[i] by {
                    if i < chans.len() {
                        assert(out@[i] == chans[i]);
                        assert(chans[i]@ == self.channel_filters.filters_seq()[i].spec_to_record());
                    } else {
                        assert(out@[i] == movs[i - chans.len()]);
                        assert(movs[i - chans.len()]@ == self.movie_filters.filters_seq()[i
                            - chans.len()].spec_to_record());
                    }
                }
            }
        }
        out
    }

    /// Decode a filter from records. Every record's tag must be recognized
    /// by exactly one of the two entity decoders, else the whole conversion
    /// fails and no partial filter is produced.
    pub fn try_from_records(records: &Vec<Record>) -> (r: Result<ProgramFilter, ()>)
        ensures
            r is Ok <==> spec_decode(records@.map_values(|x: Record| x@)) is Some,
            r is Ok ==> Some((r->Ok_0)@) == spec_decode(records@.map_values(|x: Record| x@)),
    {
        let ghost rs = records@.map_values(|x: Record| x@);
        let mut channels: Vec<ChannelAttribute> = Vec::new();
        let mut movies: Vec<MovieAttribute> = Vec::new();
        let mut i: usize = 0;
        while i < records.len()
            invariant
                rs == records@.map_values(|x: Record| x@),
                i <= records@.len(),
                forall|k: int| 0 <= k < i ==> record_recognized(#[trigger] rs[k]),
                channels@.map_values(|a: ChannelAttribute| a@) == decoded_channels(
                    rs.subrange(0, i as int),
                ),
                movies@.map_values(|a: MovieAttribute| a@) == decoded_movies(
                    rs.subrange(0, i as int),
                ),
            decreases records@.len() - i,
        {
            proof {
                assert(rs[i as int] == records@[i as int]@);
                lemma_decoded_step(rs, i as int);
            }
            let rec = &records[i];
            let c = ChannelAttribute::try_from_record(rec);
            let m = MovieAttribute::try_from_record(rec);
            match (c, m) {
                (Ok(ca), Err(_)) => {
                    channels.push(ca);
                    proof {
                        assert(channels@.map_values(|a: ChannelAttribute| a@) =~= decoded_channels(
                            rs.subrange(0, i + 1),
                        ));
                        assert(movies@.map_values(|a: MovieAttribute| a@) =~= decoded_movies(
                            rs.subrange(0, i + 1),
                        ));
                    }
                },
                (Err(_), Ok(ma)) => {
                    movies.push(ma);
                    proof {
                        assert(channels@.map_values(|a: ChannelAttribute| a@) =~= decoded_channels(
                            rs.subrange(0, i + 1),
                        ));
                        assert(movies@.map_values(|a: MovieAttribute| a@) =~= decoded_movies(
                            rs.subrange(0, i + 1),
                        ));
                    }
                },
                _ => {
                    proof {
                        assert(!record_recognized(rs[i as int]));
                    }
                    return Err(());
                },
            }
            i += 1;
        }
        proof {
            assert(rs.subrange(0, rs.len() as int) =~= rs);
        }
        let r = ProgramFilter {
            channel_filters: Filters { filters: channels, phantom: PhantomData },
            movie_filters: Filters { filters: movies, phantom: PhantomData },
        };
        proof {
            assert(r@ == spec_decode(rs)->Some_0);
        }
        Ok(r)
    }
}

impl Clone for ProgramFilter {
    /// A clone has the same view as the original: the same predicates of
    /// both kinds, in the same order.
    fn clone(&self) -> (r: Self)
        ensures
            r@ == self@,
    {
        let mut channels: Vec<ChannelAttribute> = Vec::new();
        let mut movies: Vec<MovieAttribute> = Vec::new();
        let crecs = &self.channel_filters.filters;
        let mrecs = &self.movie_filters.filters;
        let mut i: usize = 0;
        while i < crecs.len()
            invariant
                i <= crecs@.len(),
                channels@.len() == i,
                forall|k: int| 0 <= k < i ==> (#[trigger] channels@[k])@ == crecs@[k]@,
            decreases crecs@.len() - i,
        {
            channels.push(crecs[i].clone());
            i += 1;
        }
        let mut j: usize = 0;
        while j < mrecs.len()
            invariant
                j <= mrecs@.len(),
                movies@.len() == j,
                forall|k: int| 0 <= k < j ==> (#[trigger] movies@[k])@ == mrecs@[k]@,
            decreases mrecs@.len() - j,
        {
            movies.push(mrecs[j].clone());
            j += 1;
        }
        let r = ProgramFilter {
            channel_filters: Filters { filters: channels, phantom: PhantomData },
            movie_filters: Filters { filters: movies, phantom: PhantomData },
        };
        proof {
            assert(r@.channels =~= self@.channels);
            assert(r@.movies =~= self@.movies);
        }
        r
    }
}



/// An empty filter group matches nothing.
pub proof fn lemma_group_matches_empty<T: View, F: Filter<T>>(item: &T)
    ensures
        !group_matches(Seq::<F>::empty(), item),
{
}

/// OR semantics of a group: after appending a predicate, the group matches
/// exactly when it matched before or the appended predicate matches. In
/// particular a matching predicate makes the group match, and appending a
/// non-matching one changes nothing.
pub proof fn lemma_group_matches_add<T: View, F: Filter<T>>(fs: Seq<F>, f: F, item: &T)
    ensures
        group_matches(fs.push(f), item) <==> (group_matches(fs, item) || f.spec_matches(item)),
{
    let ext = fs.push(f);
    if group_matches(ext, item) {
        let i = choose|i: int| 0 <= i < ext.len() && (#[trigger] ext[i]).spec_matches(item);
        if i < fs.len() {
            assert(ext[i] == fs[i]);
            assert(group_matches(fs, item));
        } else {
            assert(ext[i] == f);
        }
    }
    if group_matches(fs, item) {
        let i = choose|i: int| 0 <= i < fs.len() && (#[trigger] fs[i]).spec_matches(item);
        assert(ext[i] == fs[i]);
        assert(group_matches(ext, item));
    }
    if f.spec_matches(item) {
        assert(ext[fs.len() as int] == f);
        assert(group_matches(ext, item));
    }
}

/// The tag namespaces of the two entity decoders are disjoint: no record is
/// recognized by both at once.
pub proof fn lemma_tag_spaces_disjoint(rec: (Seq<char>, Seq<char>))
    ensures
        !(spec_channel_of_record(rec) is Some && spec_movie_of_record(rec) is Some),
{
    reveal_strlit("name");
    reveal_strlit("title");
    reveal_strlit("genre");
    reveal_strlit("division");
    if spec_channel_of_record(rec) is Some && spec_movie_of_record(rec) is Some {
        assert(rec.0 == "name"@);
        assert("name"@.len() == 4);
        assert("title"@.len() == 5);
        assert("genre"@.len() == 5);
        assert("division"@.len() == 8);
        assert(false);
    }
}

/// Channel records whose attributes come from `cs` decode back to `cs`.
proof fn lemma_decoded_channels_all(a: Seq<(Seq<char>, Seq<char>)>, cs: Seq<ChannelAttrView>)
    requires
        a.len() == cs.len(),
        forall|i: int| 0 <= i < a.len() ==> a[i] == spec_channel_record(#[trigger] cs[i]),
    ensures
        decoded_channels(a) == cs,
    decreases a.len(),
{
    reveal_strlit("name");
    if a.len() == 0 {
        assert(decoded_channels(a) =~= cs);
    } else {
        lemma_decoded_channels_all(a.drop_last(), cs.drop_last());
        let x = cs.last();
        assert(a.last() == spec_channel_record(x));
        assert(spec_channel_of_record(a.last()) == Some(x));
        assert(decoded_channels(a) =~= cs);
    }
}

/// Movie records whose attributes come from `ms` decode back to `ms`.
proof fn lemma_decoded_movies_all(b: Seq<(Seq<char>, Seq<char>)>, ms: Seq<MovieAttrView>)
    requires
        b.len() == ms.len(),
        forall|i: int| 0 <= i < b.len() ==> b[i] == spec_movie_record(#[trigger] ms[i]),
    ensures
        decoded_movies(b) == ms,
    decreases b.len(),
{
    reveal_strlit("name");
    reveal_strlit("title");
    reveal_strlit("genre");
    reveal_strlit("division");
    if b.len() == 0 {
        assert(decoded_movies(b) =~= ms);
    } else {
        lemma_decoded_movies_all(b.drop_last(), ms.drop_last());
        let x = ms.last();
        assert(b.last() == spec_movie_record(x));
        assert("title"@.len() == 5);
        assert("genre"@.len() == 5);
        assert("division"@.len() == 8);
        assert("title"@[0] == 't');
        assert("genre"@[0] == 'g');
        assert(spec_movie_of_record(b.last()) == Some(x));
        assert(decoded_movies(b) =~= ms);
    }
}

/// Records that the channel decoder does not recognize add nothing to the
/// decoded channel attributes.
proof fn lemma_decoded_channels_append_none(
    a: Seq<(Seq<char>, Seq<char>)>,
    b: Seq<(Seq<char>, Seq<char>)>,
)
    requires
        forall|i: int| 0 <= i < b.len() ==> spec_channel_of_record(#[trigger] b[i]) is None,
    ensures
        decoded_channels(a + b) == decoded_channels(a),
    decreases b.len(),
{
    if b.len() == 0 {
        assert(a + b =~= a);
    } else {
        lemma_decoded_channels_append_none(a, b.drop_last());
        assert((a + b).drop_last() =~= a + b.drop_last());
        assert((a + b).last() == b.last());
    }
}

/// Records that the movie decoder does not recognize, put in front, add
/// nothing to the decoded movie attributes.
proof fn lemma_decoded_movies_skip_prefix(
    a: Seq<(Seq<char>, Seq<char>)>,
    b: Seq<(Seq<char>, Seq<char>)>,
)
    requires
        forall|i: int| 0 <= i < a.len() ==> spec_movie_of_record(#[trigger] a[i]) is None,
    ensures
        decoded_movies(a + b) == decoded_movies(b),
    decreases a.len() + b.len(),
{
    if b.len() == 0 {
        if a.len() == 0 {
            assert(a + b =~= a);
        } else {
            assert((a + b) =~= a);
            assert(a.drop_last() + b =~= a.drop_last());
            lemma_decoded_movies_skip_prefix(a.drop_last(), b);
            assert(decoded_movies(a) == decoded_movies(a.drop_last()));
        }
    } else {
        lemma_decoded_movies_skip_prefix(a, b.drop_last());
        assert((a + b).drop_last() =~= a + b.drop_last());
        assert((a + b).last() == b.last());
    }
}

/// A record list holding a tag that neither entity decoder recognizes
/// decodes to nothing: the whole conversion is rejected.
pub proof fn lemma_unknown_tag_rejected(rs: Seq<(Seq<char>, Seq<char>)>, i: int)
    requires
        0 <= i < rs.len(),
        rs[i].0 != "name"@,
        rs[i].0 != "title"@,
        rs[i].0 != "genre"@,
        rs[i].0 != "division"@,
    ensures
        spec_decode(rs) is None,
{
    assert(!record_recognized(rs[i]));
}

/// The round-trip law: decoding an encoded filter recovers the filter. The
/// encoded list is in canonical channel-then-movie order, every tag in it is
/// recognized by exactly one decoder, and the attributes come back in order.
pub proof fn lemma_encode_decode_round_trip(v: ProgramFilterView)
    ensures
        spec_decode(spec_encode(v)) == Some(v),
{
    reveal_strlit("name");
    reveal_strlit("title");
    reveal_strlit("genre");
    reveal_strlit("division");
    let a = v.channels.map_values(|x: ChannelAttrView| spec_channel_record(x));
    let b = v.movies.map_values(|x: MovieAttrView| spec_movie_record(x));
    let rs = spec_encode(v);
    assert(rs == a + b);
    assert("name"@.len() == 4);
    assert("title"@.len() == 5);
    assert("genre"@.len() == 5);
    assert("division"@.len() == 8);
    assert("title"@[0] == 't');
    assert("genre"@[0] == 'g');
    assert forall|i: int| 0 <= i < a.len() implies spec_channel_of_record(#[trigger] a[i]) is Some
        && spec_movie_of_record(a[i]) is None by {
        assert(a[i] == spec_channel_record(v.channels[i]));
    }
    assert forall|i: int| 0 <= i < b.len() implies spec_movie_of_record(#[trigger] b[i]) is Some
        && spec_channel_of_record(b[i]) is None by {
        assert(b[i] == spec_movie_record(v.movies[i]));
    }
    assert forall|i: int| 0 <= i < rs.len() implies record_recognized(#[trigger] rs[i]) by {
        if i < a.len() {
            assert(rs[i] == a[i]);
        } else {
            assert(rs[i] == b[i - a.len()]);
        }
    }
    lemma_decoded_channels_append_none(a, b);
    assert forall|i: int| 0 <= i < a.len() implies a[i] == spec_channel_record(
        #[trigger] v.channels[i],
    ) by {}
    lemma_decoded_channels_all(a, v.channels);
    lemma_decoded_movies_skip_prefix(a, b);
    assert forall|i: int| 0 <= i < b.len() implies b[i] == spec_movie_record(
        #[trigger] v.movies[i],
    ) by {}
    lemma_decoded_movies_all(b, v.movies);
    assert(spec_decode(rs) == Some(ProgramFilterView { channels: v.channels, movies: v.movies }));
    assert(ProgramFilterView { channels: v.channels, movies: v.movies } == v);
}

} // verus!
