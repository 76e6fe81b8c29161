use telly::icon::{crop_tile, decode_webp_icon, Icon};
use telly::program::{Channel, Movie, MovieBuilder, Program};

#[test]
fn movie_builder_sets_only_discovered_fields() {
    let mut builder = MovieBuilder::new("Tatort");
    builder.with_year(2008);
    builder.with_genre("Krimi");
    let movie = builder.build();
    assert_eq!(movie.get_title(), "Tatort");
    assert_eq!(movie.get_year(), Some(2008));
    assert_eq!(movie.get_genre(), Some("Krimi".to_string()));
    assert_eq!(movie.get_division(), None);
    assert_eq!(movie.get_description(), None);
}

#[test]
fn movie_setters_and_getters() {
    let mut movie = Movie::new("Heute");
    movie.set_year(Some(1999));
    movie.set_genre(Some("Nachrichten".to_string()));
    movie.set_division(Some("Info".to_string()));
    movie.set_description(Some("Das Neueste.".to_string()));
    assert_eq!(movie.get_year(), Some(1999));
    assert_eq!(movie.get_genre(), Some("Nachrichten".to_string()));
    assert_eq!(movie.get_division(), Some("Info".to_string()));
    assert_eq!(movie.get_description(), Some("Das Neueste.".to_string()));
    movie.set_year(None);
    assert_eq!(movie.get_year(), None);
}

#[test]
fn movie_equality_is_by_value() {
    let mut a = MovieBuilder::new("Tatort");
    a.with_year(2008);
    let mut b = MovieBuilder::new("Tatort");
    b.with_year(2008);
    assert_eq!(a.build(), b.build());

    let mut c = Movie::new("Tatort");
    let d = Movie::new("Tatort");
    assert_eq!(c, d);
    c.set_year(Some(2008));
    assert_ne!(c, d);
}

#[test]
fn same_as_compares_every_field() {
    let mut a = Movie::new("Tatort");
    let b = Movie::new("Tatort");
    assert!(a.same_as(&b));
    a.set_description(Some("Ein Fall.".to_string()));
    assert!(!a.same_as(&b));
}

#[test]
fn channel_holds_name_and_icon() {
    let mut channel = Channel::new("ZDF");
    assert_eq!(channel.get_name(), "ZDF");
    assert!(channel.get_icon().is_none());
    let icon = Icon { width: 1, height: 1, data: vec![1, 2, 3, 4] };
    channel.set_icon(Some(icon));
    assert_eq!(channel.get_icon().as_ref().unwrap().data, vec![1, 2, 3, 4]);
}

#[test]
fn program_keeps_insertion_order() {
    let mut program = Program::new();
    assert_eq!(program.len(), 0);
    program.add(Channel::new("ZDF"), Movie::new("Tagesschau"));
    program.add(Channel::new("ARD"), Movie::new("Heute"));
    assert_eq!(program.len(), 2);
    assert_eq!(program.get(0).0.get_name(), "ZDF");
    assert_eq!(program.get(1).1.get_title(), "Heute");
    let names: Vec<String> = program.iter().iter().map(|p| p.0.get_name()).collect();
    assert_eq!(names, vec!["ZDF".to_string(), "ARD".to_string()]);
}

#[test]
fn crop_cuts_the_requested_tile() {
    // a 2x3 bitmap whose pixel (x, y) holds bytes [x, y, 0, 255]
    let mut data = Vec::new();
    for y in 0..3u8 {
        for x in 0..2u8 {
            data.extend_from_slice(&[x, y, 0, 255]);
        }
    }
    let src = Icon { width: 2, height: 3, data };
    let tile = crop_tile(&src, 0, 1, 2, 1);
    assert_eq!(tile.width, 2);
    assert_eq!(tile.height, 1);
    assert_eq!(tile.data, vec![0, 1, 0, 255, 1, 1, 0, 255]);
}

#[test]
fn crop_clamps_to_the_bitmap() {
    let src = Icon { width: 2, height: 2, data: vec![9; 16] };
    let tile = crop_tile(&src, 1, 1, 44, 44);
    assert_eq!(tile.width, 1);
    assert_eq!(tile.height, 1);
    assert_eq!(tile.data, vec![9, 9, 9, 9]);
    let empty = crop_tile(&src, 5, 5, 44, 44);
    assert_eq!(empty.width, 0);
    assert_eq!(empty.height, 0);
    assert_eq!(empty.data, Vec::<u8>::new());
}

#[test]
fn webp_decoding_recovers_the_pixels() {
    let pixels: Vec<u8> = vec![
        255, 0, 0, 255, 0, 255, 0, 255, 0, 0, 255, 255, 255, 255, 255, 255,
    ];
    let bytes = webp::Encoder::from_rgba(&pixels, 2, 2).encode_lossless();
    let icon = decode_webp_icon(&bytes).unwrap();
    assert_eq!(icon.width, 2);
    assert_eq!(icon.height, 2);
    assert_eq!(icon.data, pixels);
}

#[test]
fn webp_decoding_rejects_garbage() {
    assert!(decode_webp_icon(&[1, 2, 3, 4, 5]).is_none());
}
