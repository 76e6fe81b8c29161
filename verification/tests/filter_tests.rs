use telly::filter::{
    ChannelAttribute, Filter, FilterGroup, FilterType, Filters, MovieAttribute, ProgramFilter,
    Record, RecordConv,
};
use telly::program::{Channel, Movie, Program};

fn rec(tag: &str, value: &str) -> Record {
    Record { tag: tag.to_string(), value: value.to_string() }
}

#[test]
fn test_to_str_array() {
    assert_eq!(rec("title", "Hello"), MovieAttribute::Title("Hello".to_string()).to_record());

    assert_eq!(rec("genre", "Bye"), MovieAttribute::Genre("Bye".to_string()).to_record());

    assert_eq!(rec("division", "World"), MovieAttribute::Division("World".to_string()).to_record());

    assert_eq!(rec("name", "World2"), ChannelAttribute::Name("World2".to_string()).to_record());
}

#[test]
fn test_to_vec_str_array() {
    let mut filter: Filters<Movie, MovieAttribute> = Filters::new();
    filter.add(MovieAttribute::Title("Hello".to_string()));
    filter.add(MovieAttribute::Genre("Bye".to_string()));
    filter.add(MovieAttribute::Division("World".to_string()));

    assert_eq!(
        vec![rec("title", "Hello"), rec("genre", "Bye"), rec("division", "World")],
        filter.to_records()
    );
}

#[test]
fn test_program_to_vec_str_array() {
    let mut filter = ProgramFilter::new();
    filter.add_movie_filter(MovieAttribute::Title("Hello".to_string()));
    filter.add_movie_filter(MovieAttribute::Genre("Bye".to_string()));
    filter.add_movie_filter(MovieAttribute::Division("World".to_string()));
    filter.add_channel_filter(ChannelAttribute::Name("World2".to_string()));

    assert_eq!(
        vec![
            rec("name", "World2"),
            rec("title", "Hello"),
            rec("genre", "Bye"),
            rec("division", "World"),
        ],
        filter.to_records()
    );
}

#[test]
fn test_from_str_array() {
    assert_eq!(
        MovieAttribute::try_from_record(&rec("title", "Hello")),
        Ok(MovieAttribute::Title("Hello".to_string()))
    );

    assert_eq!(
        MovieAttribute::try_from_record(&rec("genre", "Bye")),
        Ok(MovieAttribute::Genre("Bye".to_string()))
    );

    assert_eq!(
        MovieAttribute::try_from_record(&rec("division", "World")),
        Ok(MovieAttribute::Division("World".to_string()))
    );

    assert_eq!(
        ChannelAttribute::try_from_record(&rec("name", "World2")),
        Ok(ChannelAttribute::Name("World2".to_string()))
    );

    assert_eq!(ChannelAttribute::try_from_record(&rec("nan", "World2")), Err(()));
}

#[test]
fn test_program_from_vec_str_array() {
    let mut program_filter = ProgramFilter::new();
    program_filter.add_channel_filter(ChannelAttribute::Name("World2".to_string()));
    program_filter.add_movie_filter(MovieAttribute::Title("Hello".to_string()));
    program_filter.add_movie_filter(MovieAttribute::Genre("Bye".to_string()));
    program_filter.add_movie_filter(MovieAttribute::Division("World".to_string()));

    let records = vec![
        rec("name", "World2"),
        rec("title", "Hello"),
        rec("genre", "Bye"),
        rec("division", "World"),
    ];

    assert_eq!(ProgramFilter::try_from_records(&records), Ok(program_filter));
}

#[test]
fn from_vec_keeps_order() {
    let filters = Filters::<Movie, MovieAttribute>::from_vec(vec![
        MovieAttribute::Title("A".to_string()),
        MovieAttribute::Genre("B".to_string()),
    ]);
    assert_eq!(filters.to_records(), vec![rec("title", "A"), rec("genre", "B")]);
}

#[test]
fn empty_filters_match_nothing() {
    let filters: Filters<Channel, ChannelAttribute> = Filters::new();
    assert!(!filters.matches(&Channel::new("ZDF")));
}

#[test]
fn or_semantics_of_filter_group() {
    let channel = Channel::new("ZDF");
    let mut filters: Filters<Channel, ChannelAttribute> = Filters::new();
    assert!(!filters.matches(&channel));
    filters.add(ChannelAttribute::Name("ZDF".to_string()));
    assert!(filters.matches(&channel));
    filters.add(ChannelAttribute::Name("ARD".to_string()));
    assert!(filters.matches(&channel));
}

#[test]
fn absent_optional_fields_never_match() {
    let movie = Movie::new("Tagesschau");
    assert!(!MovieAttribute::Genre("".to_string()).matches(&movie));
    assert!(!MovieAttribute::Division("".to_string()).matches(&movie));
    assert!(MovieAttribute::Title("Tagesschau".to_string()).matches(&movie));
}

#[test]
fn add_dispatches_by_kind() {
    let mut filter = ProgramFilter::new();
    filter.add(FilterType::Channel(ChannelAttribute::Name("ZDF".to_string())));
    filter.add(FilterType::Movie(MovieAttribute::Title("Heute".to_string())));
    assert_eq!(vec![rec("name", "ZDF"), rec("title", "Heute")], filter.to_records());
}

#[test]
fn filter_removes_matching_pairs_in_order() {
    let mut filter = ProgramFilter::new();
    filter.add_channel_filter(ChannelAttribute::Name("ZDF".to_string()));
    filter.add_movie_filter(MovieAttribute::Title("Wetter".to_string()));

    let mut program = Program::new();
    program.add(Channel::new("ZDF"), Movie::new("Tagesschau"));
    program.add(Channel::new("ARD"), Movie::new("Heute"));
    program.add(Channel::new("RTL"), Movie::new("Wetter"));
    program.add(Channel::new("VOX"), Movie::new("Film"));

    let kept = filter.filter(&program);
    assert_eq!(kept.len(), 2);
    assert_eq!(kept.get(0).0.get_name(), "ARD");
    assert_eq!(kept.get(0).1.get_title(), "Heute");
    assert_eq!(kept.get(1).0.get_name(), "VOX");
    assert_eq!(kept.get(1).1.get_title(), "Film");
}

#[test]
fn matches_checks_both_kinds() {
    let mut filter = ProgramFilter::new();
    filter.add_channel_filter(ChannelAttribute::Name("ZDF".to_string()));
    filter.add_movie_filter(MovieAttribute::Genre("Krimi".to_string()));

    let zdf = Channel::new("ZDF");
    let ard = Channel::new("ARD");
    let plain = Movie::new("Heute");
    let mut krimi = Movie::new("Tatort");
    krimi.set_genre(Some("Krimi".to_string()));

    assert!(filter.matches((&zdf, &plain)));
    assert!(filter.matches((&ard, &krimi)));
    assert!(!filter.matches((&ard, &plain)));
}

#[test]
fn decode_rejects_unknown_tag() {
    let records = vec![rec("name", "ZDF"), rec("year", "2008")];
    assert_eq!(ProgramFilter::try_from_records(&records), Err(()));
}

#[test]
fn record_round_trip_through_program_filter() {
    let mut filter = ProgramFilter::new();
    filter.add_movie_filter(MovieAttribute::Division("Serie".to_string()));
    filter.add_channel_filter(ChannelAttribute::Name("3sat".to_string()));
    let records = filter.to_records();
    // canonical order re-sorts channel records first
    assert_eq!(records[0], rec("name", "3sat"));
    assert_eq!(records[1], rec("division", "Serie"));
    assert_eq!(ProgramFilter::try_from_records(&records), Ok(filter));
}
