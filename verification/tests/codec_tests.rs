use telly::error::Error;
use telly::filter::{ChannelAttribute, MovieAttribute, ProgramFilter};

#[test]
fn encode_produces_comma_separated_lines() {
    let mut filter = ProgramFilter::new();
    filter.add_channel_filter(ChannelAttribute::Name("ZDF".to_string()));
    filter.add_movie_filter(MovieAttribute::Title("Tagesschau".to_string()));
    let text = filter.encode_to_string().unwrap();
    assert_eq!(text, "name,ZDF\ntitle,Tagesschau\n");
}

#[test]
fn decode_reads_comma_separated_lines() {
    let decoded = ProgramFilter::decode_from_string("name,ZDF\ntitle,Tagesschau\n").unwrap();
    let mut expected = ProgramFilter::new();
    expected.add_channel_filter(ChannelAttribute::Name("ZDF".to_string()));
    expected.add_movie_filter(MovieAttribute::Title("Tagesschau".to_string()));
    assert_eq!(decoded, expected);
}

#[test]
fn text_round_trip_recovers_filter() {
    let mut filter = ProgramFilter::new();
    filter.add_channel_filter(ChannelAttribute::Name("Das Erste".to_string()));
    filter.add_channel_filter(ChannelAttribute::Name("tv.berlin".to_string()));
    filter.add_movie_filter(MovieAttribute::Title("Tatort".to_string()));
    filter.add_movie_filter(MovieAttribute::Genre("Krimi".to_string()));
    filter.add_movie_filter(MovieAttribute::Division("Serie".to_string()));
    let text = filter.encode_to_string().unwrap();
    assert_eq!(ProgramFilter::decode_from_string(&text), Ok(filter));
}

#[test]
fn decode_empty_text_gives_empty_filter() {
    let decoded = ProgramFilter::decode_from_string("").unwrap();
    assert_eq!(decoded, ProgramFilter::new());
}

#[test]
fn decode_rejects_wrong_field_count() {
    // a one-field line among two-field lines
    let r = ProgramFilter::decode_from_string("name,ZDF\n\"title\"\n");
    assert_eq!(r, Err(Error::ParsingFile));
}

#[test]
fn decode_rejects_unrecognized_tag() {
    let r = ProgramFilter::decode_from_string("name,ZDF\nyear,2008\n");
    assert_eq!(r, Err(Error::ParsingFile));
}

#[test]
fn decode_rejects_malformed_text() {
    // a record with a third field does not fit the two-field shape
    let r = ProgramFilter::decode_from_string("name,ZDF\ntitle,Tagesschau,extra\n");
    assert_eq!(r, Err(Error::ParsingFile));
}

#[test]
fn encode_quotes_values_with_commas() {
    let mut filter = ProgramFilter::new();
    filter.add_movie_filter(MovieAttribute::Title("Bonnie, Clyde".to_string()));
    let text = filter.encode_to_string().unwrap();
    assert_eq!(text, "title,\"Bonnie, Clyde\"\n");
    assert_eq!(ProgramFilter::decode_from_string(&text), Ok(filter));
}

#[test]
fn error_messages_name_the_failure() {
    assert_eq!(
        Error::Networking.message(),
        "A networking error occured. Are you connected to the internet?"
    );
    assert_eq!(Error::ParsingWebsite.message(), "Could not parse the website. Maybe it has changed?");
    assert_eq!(Error::ParsingFile.message(), "Could not parse the file about the filters.");
}
