use telly::error::Error;
use telly::filter::{ChannelAttribute, MovieAttribute, ProgramFilter};
use telly::program::{Movie, MovieBuilder, Program};
use telly::tv_spielfilm::{TvSpielfilm, ICON_SIZE};

/// A sprite of 29 stacked square tiles; tile `i` is filled with the byte
/// value `i + 1`.
fn sprite_bytes() -> Vec<u8> {
    let side = ICON_SIZE as usize;
    let mut pixels = Vec::new();
    for tile in 0..29usize {
        let v = (tile + 1) as u8;
        pixels.extend(std::iter::repeat(v).take(side * side * 4));
    }
    let bytes = webp::Encoder::from_rgba(&pixels, ICON_SIZE, ICON_SIZE * 29).encode_lossless();
    bytes.to_vec()
}

fn row(channel_attr: &str, title: &str, genre: &str, division: &str, link_attrs: &str) -> String {
    format!(
        "<tr class=\"hover\"><td class=\"programm-col1\"><a {}>x</a></td><td class=\"col-3\"><span><a {}><strong>{}</strong></a></span></td><td class=\"col-4\"><span>{}</span></td><td class=\"col-5\"><span>{}</span></td></tr>",
        channel_attr, link_attrs, title, genre, division
    )
}

fn page(rows: &str) -> String {
    format!(
        "<html><body><div id=\"wrapper\"><div id=\"main\"><div class=\"content-area\"><div id=\"content\"><div class=\"tvlistings\"><div class=\"content-holder\"><div class=\"tab-content\"><table class=\"info-table\"><tbody>{}</tbody></table></div></div></div></div></div></div></div></body></html>",
        rows
    )
}

#[test]
fn listing_page_builds_the_program() {
    let rows = [
        row(
            "title=\"ZDF Programm\"",
            "Tagesschau",
            " Nachrichten ",
            " Info DE ",
            "title=\"Nachrichten 2008\" href=\"https://example.org/tagesschau\"",
        ),
        row("title=\"Eurosport\"", "Radsport", "Sport", "Livesport", "title=\"Sport\""),
    ]
    .join("");
    let html = page(&rows);
    let mut tv = TvSpielfilm::new();
    let program = tv.build_program(&html, &sprite_bytes()).unwrap();

    assert_eq!(program.len(), 2);

    let (channel, movie) = program.get(0);
    // the trailing " Programm" suffix is stripped from the label
    assert_eq!(channel.get_name(), "ZDF");
    assert_eq!(movie.get_title(), "Tagesschau");
    assert_eq!(movie.get_genre(), Some("Nachrichten".to_string()));
    // of the division only the first space-separated token is kept
    assert_eq!(movie.get_division(), Some("Info".to_string()));
    // the year is the last space-separated token of the entry label
    assert_eq!(movie.get_year(), Some(2008));
    assert_eq!(movie.get_description(), None);

    let (channel2, movie2) = program.get(1);
    assert_eq!(channel2.get_name(), "Eurosport");
    assert_eq!(movie2.get_year(), None);
    // a channel outside the fixed icon order has no icon
    assert!(channel2.get_icon().is_none());
}

#[test]
fn known_channel_gets_its_sprite_tile() {
    let html = page(&row(
        "title=\"ZDF Programm\"",
        "Tagesschau",
        "News",
        "Info",
        "title=\"News\"",
    ));
    let mut tv = TvSpielfilm::new();
    let program = tv.build_program(&html, &sprite_bytes()).unwrap();
    let (channel, _) = program.get(0);
    let icon = channel.get_icon().as_ref().unwrap();
    // ZDF is the second tile of the sprite, filled with the byte value 2
    assert_eq!(icon.width, ICON_SIZE);
    assert_eq!(icon.height, ICON_SIZE);
    assert!(icon.data.iter().all(|b| *b == 2));
}

#[test]
fn missing_channel_aborts_the_whole_fetch() {
    // ten valid rows, then one whose channel cell has no link
    let mut rows = String::new();
    for i in 0..10 {
        rows.push_str(&row(
            "title=\"ZDF Programm\"",
            &format!("Sendung {}", i),
            "G",
            "D",
            "title=\"G\"",
        ));
    }
    rows.push_str(
        "<tr class=\"hover\"><td class=\"programm-col1\"></td><td class=\"col-3\"><span><a><strong>X</strong></a></span></td></tr>",
    );
    let mut tv = TvSpielfilm::new();
    assert_eq!(tv.build_program(&page(&rows), &sprite_bytes()), Err(Error::ParsingWebsite));
}

#[test]
fn missing_title_aborts_the_whole_fetch() {
    let rows = "<tr class=\"hover\"><td class=\"programm-col1\"><a title=\"ZDF\">x</a></td></tr>";
    let mut tv = TvSpielfilm::new();
    assert_eq!(tv.build_program(&page(rows), &sprite_bytes()), Err(Error::ParsingWebsite));
}

#[test]
fn garbage_sprite_aborts_the_whole_fetch() {
    let mut tv = TvSpielfilm::new();
    let html = page(&row("title=\"ZDF\"", "T", "G", "D", "title=\"G\""));
    assert_eq!(tv.build_program(&html, &[0, 1, 2]), Err(Error::ParsingWebsite));
}

#[test]
fn unseen_movie_misses_the_cache() {
    let tv = TvSpielfilm::new();
    let movie = Movie::new("Tagesschau");
    assert_eq!(tv.get_detail_url(&movie), None);
}

#[test]
fn detail_url_is_cached_by_movie_value() {
    // two rows build structurally equal movies; only the first row carries
    // a detail link, so the cache is populated from it alone
    let rows = [
        row(
            "title=\"ZDF Programm\"",
            "Tagesschau",
            "Nachrichten",
            "Info",
            "title=\"Nachrichten 2008\" href=\"https://example.org/t\"",
        ),
        row(
            "title=\"ZDF Programm\"",
            "Tagesschau",
            "Nachrichten",
            "Info",
            "title=\"Nachrichten 2008\"",
        ),
    ]
    .join("");
    let mut tv = TvSpielfilm::new();
    let program = tv.build_program(&page(&rows), &sprite_bytes()).unwrap();
    assert_eq!(program.len(), 2);
    let (_, first) = program.get(0);
    let (_, second) = program.get(1);
    assert_eq!(first, second);

    // a lookup with the structurally equal second movie still hits
    assert_eq!(tv.get_detail_url(second), Some("https://example.org/t".to_string()));

    // so does a freshly built equal value
    let mut builder = MovieBuilder::new("Tagesschau");
    builder.with_year(2008);
    builder.with_genre("Nachrichten");
    builder.with_division("Info");
    let fresh = builder.build();
    assert_eq!(tv.get_detail_url(&fresh), Some("https://example.org/t".to_string()));

    // while a differing value misses
    let other = Movie::new("Tagesschau");
    assert_eq!(tv.get_detail_url(&other), None);
}

#[test]
fn cloned_providers_evolve_independently() {
    let html = page(&row(
        "title=\"ZDF Programm\"",
        "Tagesschau",
        "Nachrichten",
        "Info",
        "title=\"Nachrichten 2008\" href=\"https://example.org/t\"",
    ));
    let before = TvSpielfilm::new();
    let mut after = before.clone();
    after.build_program(&html, &sprite_bytes()).unwrap();
    let mut builder = MovieBuilder::new("Tagesschau");
    builder.with_year(2008);
    builder.with_genre("Nachrichten");
    builder.with_division("Info");
    let movie = builder.build();
    assert!(after.get_detail_url(&movie).is_some());
    assert!(before.get_detail_url(&movie).is_none());
}

#[test]
fn enrichment_replaces_only_the_description() {
    let detail = "<html><body><div id=\"content\"><div><div><article><section class=\"broadcast-detail__description\"><p>Erster Absatz.</p><p>Zweiter Absatz.</p></section></article></div></div></div></body></html>";
    let mut builder = MovieBuilder::new("Tagesschau");
    builder.with_year(2008);
    let movie = builder.build();
    let enriched = TvSpielfilm::enrich_from_page(&movie, detail);
    assert_eq!(enriched.get_title(), "Tagesschau");
    assert_eq!(enriched.get_year(), Some(2008));
    assert_eq!(
        enriched.get_description(),
        Some("Erster Absatz.\n\nZweiter Absatz.\n\n".to_string())
    );
    // the input movie is untouched
    assert_eq!(movie.get_description(), None);
}

#[test]
fn enrichment_of_a_bare_page_gives_an_empty_description() {
    // a page without description paragraphs still replaces the
    // description, with the empty join
    let movie = Movie::new("Tagesschau");
    let enriched = TvSpielfilm::enrich_from_page(&movie, "<html><body><p>x</p></body></html>");
    assert_eq!(enriched.get_description(), Some("".to_string()));
    assert_eq!(enriched.get_title(), "Tagesschau");
}

#[test]
fn scenario_saved_filters_suppress_listed_pairs() {
    // the filter file holds `name,ZDF` then `title,Tagesschau`
    let filter = ProgramFilter::decode_from_string("name,ZDF\ntitle,Tagesschau\n").unwrap();
    let mut expected = ProgramFilter::new();
    expected.add_channel_filter(ChannelAttribute::Name("ZDF".to_string()));
    expected.add_movie_filter(MovieAttribute::Title("Tagesschau".to_string()));
    assert_eq!(filter, expected);

    let mut program = Program::new();
    program.add(telly::program::Channel::new("ZDF"), Movie::new("Tagesschau"));
    program.add(telly::program::Channel::new("ARD"), Movie::new("Heute"));
    let kept = filter.filter(&program);
    assert_eq!(kept.len(), 1);
    assert_eq!(kept.get(0).0.get_name(), "ARD");
    assert_eq!(kept.get(0).1.get_title(), "Heute");
}
