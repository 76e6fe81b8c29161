//! The domain model: a [`Channel`], a [`Movie`], and a [`Program`] holding an
//! ordered sequence of (channel, movie) pairs in source listing order.

use vstd::prelude::*;

use crate::icon::{Icon, IconView};

verus! {

/// The view of an optional owned string.
pub open spec fn opt_str_view(o: Option<String>) -> Option<Seq<char>> {
    match o {
        Some(s) => Some(s@),
        None => None,
    }
}

/// The view of an optional icon.
pub open spec fn opt_icon_view(o: Option<Icon>) -> Option<IconView> {
    match o {
        Some(ic) => Some(ic@),
        None => None,
    }
}

/// A broadcast channel: a required name and an optional icon bitmap owned by
/// the channel.
#[derive(Debug, PartialEq, Eq)]
pub struct Channel {
    name: String,
    icon: Option<Icon>,
}

/// The mathematical value of a [`Channel`].
pub ghost struct ChannelView {
    pub name: Seq<char>,
    pub icon: Option<IconView>,
}

impl View for Channel {
    type V = ChannelView;

    closed spec fn view(&self) -> ChannelView {
        ChannelView { name: self.name@, icon: opt_icon_view(self.icon) }
    }
}

/// A programme entry: a required title and optional year, genre, division and
/// description. Equality compares every field, so a movie can serve as a
/// by-value lookup key before all of its fields are known.
#[derive(Debug, Hash, PartialEq, Eq)]
pub struct Movie {
    title: String,
    year: Option<u32>,
    genre: Option<String>,
    division: Option<String>,
    description: Option<String>,
}

/// The mathematical value of a [`Movie`].
pub ghost struct MovieView {
    pub title: Seq<char>,
    pub year: Option<u32>,
    pub genre: Option<Seq<char>>,
    pub division: Option<Seq<char>>,
    pub description: Option<Seq<char>>,
}

impl View for Movie {
    type V = MovieView;

    closed spec fn view(&self) -> MovieView {
        MovieView {
            title: self.title@,
            year: self.year,
            genre: opt_str_view(self.genre),
            division: opt_str_view(self.division),
            description: opt_str_view(self.description),
        }
    }
}

/// Copy an optional owned string.
pub(crate) fn clone_opt_string(s: &Option<String>) -> (r: Option<String>)
    ensures
        r == *s,
{
    match s {
        Some(v) => Some(v.clone()),
        None => None,
    }
}

/// Decide equality of two optional strings by their characters.
fn opt_string_eq(a: &Option<String>, b: &Option<String>) -> (r: bool)
    ensures
        r == (opt_str_view(*a) == opt_str_view(*b)),
{
    match (a, b) {
        (Some(x), Some(y)) => x.eq(y),
        (None, None) => true,
        _ => false,
    }
}

impl Clone for Movie {
    /// A clone equals the original.
    fn clone(&self) -> (r: Self)
        ensures
            r == *self,
    {
        Movie {
            title: self.title.clone(),
            year: self.year,
            genre: clone_opt_string(&self.genre),
            division: clone_opt_string(&self.division),
            description: clone_opt_string(&self.description),
        }
    }
}

impl Clone for Channel {
    /// A clone has the same view as the original.
    fn clone(&self) -> (r: Self)
        ensures
            r@ == self@,
    {
        let icon = match &self.icon {
            Some(ic) => Some(ic.clone()),
            None => None,
        };
        Channel { name: self.name.clone(), icon }
    }
}

impl Channel {
    /// Create a new `Channel` with the given name and no icon.
    pub fn new(name: &str) -> (r: Self)
        ensures
            r@.name == name@,
            r@.icon is None,
    {
        Channel { name: name.to_owned(), icon: None }
    }

    /// Get the name of the `Channel`.
    pub fn get_name(&self) -> (r: String)
        ensures
            r@ == self@.name,
    {
        self.name.clone()
    }

    /// Set the icon of the `Channel`.
    pub fn set_icon(&mut self, icon: Option<Icon>)
        ensures
            final(self)@.name == old(self)@.name,
            final(self)@.icon == opt_icon_view(icon),
    {
        self.icon = icon;
    }

    /// Borrow the icon of the `Channel`, if it has one.
    pub fn get_icon(&self) -> (r: &Option<Icon>)
        ensures
            opt_icon_view(*r) == self@.icon,
    {
        &self.icon
    }

    /// Decide whether this channel's name equals `name`.
    pub fn name_is(&self, name: &String) -> (r: bool)
        ensures
            r == (self@.name == name@),
    {
        self.name.eq(name)
    }
}

impl Movie {
    /// Create a new `Movie` with the given title. All other attributes are
    /// not set.
    pub fn new(title: &str) -> (r: Self)
        ensures
            r@.title == title@,
            r@.year is None,
            r@.genre is None,
            r@.division is None,
            r@.description is None,
    {
        Movie {
            title: title.to_owned(),
            year: None,
            genre: None,
            division: None,
            description: None,
        }
    }

    /// Get the title.
    pub fn get_title(&self) -> (r: String)
        ensures
            r@ == self@.title,
    {
        self.title.clone()
    }

    /// Get the optional year.
    pub fn get_year(&self) -> (r: Option<u32>)
        ensures
            r == self@.year,
    {
        self.year
    }

    /// Set the optional year.
    pub fn set_year(&mut self, year: Option<u32>)
        ensures
            final(self)@ == (MovieView { year, ..old(self)@ }),
    {
        self.year = year
    }

    /// Get the optional genre.
    pub fn get_genre(&self) -> (r: Option<String>)
        ensures
            opt_str_view(r) == self@.genre,
    {
        clone_opt_string(&self.genre)
    }

    /// Set the optional genre.
    pub fn set_genre(&mut self, genre: Option<String>)
        ensures
            final(self)@ == (MovieView { genre: opt_str_view(genre), ..old(self)@ }),
    {
        self.genre = genre
    }

    /// Get the optional division.
    pub fn get_division(&self) -> (r: Option<String>)
        ensures
            opt_str_view(r) == self@.division,
    {
        clone_opt_string(&self.division)
    }

    /// Set the optional division.
    pub fn set_division(&mut self, division: Option<String>)
        ensures
            final(self)@ == (MovieView { division: opt_str_view(division), ..old(self)@ }),
    {
        self.division = division
    }

    /// Get the optional description.
    pub fn get_description(&self) -> (r: Option<String>)
        ensures
            opt_str_view(r) == self@.description,
    {
        clone_opt_string(&self.description)
    }

    /// Set the optional description.
    pub fn set_description(&mut self, description: Option<String>)
        ensures
            final(self)@ == (MovieView { description: opt_str_view(description), ..old(self)@ }),
    {
        self.description = description
    }

    /// Decide whether this movie's title equals `title`.
    pub fn title_is(&self, title: &String) -> (r: bool)
        ensures
            r == (self@.title == title@),
    {
        self.title.eq(title)
    }

    /// Decide whether this movie has a genre equal to `genre`.
    pub fn genre_is(&self, genre: &String) -> (r: bool)
        ensures
            r == (self@.genre == Some(genre@)),
    {
        match &self.genre {
            Some(g) => g.eq(genre),
            None => false,
        }
    }

    /// Decide whether this movie has a division equal to `division`.
    pub fn division_is(&self, division: &String) -> (r: bool)
        ensures
            r == (self@.division == Some(division@)),
    {
        match &self.division {
            Some(d) => d.eq(division),
            None => false,
        }
    }

    /// Decide equality with another movie by the value of every field.
    pub fn same_as(&self, other: &Movie) -> (r: bool)
        ensures
            r == (self@ == other@),
    {
        let fields_eq = self.title.eq(&other.title) && self.year == other.year
            && opt_string_eq(&self.genre, &other.genre)
            && opt_string_eq(&self.division, &other.division)
            && opt_string_eq(&self.description, &other.description);
        fields_eq
    }
}

/// Build movies one optional attribute at a time. The view of a builder is
/// the view of the movie it would build.
#[derive(Debug)]
pub struct MovieBuilder {
    movie: Movie,
}

impl View for MovieBuilder {
    type V = MovieView;

    closed spec fn view(&self) -> MovieView {
        self.movie@
    }
}

impl MovieBuilder {
    /// Create a `MovieBuilder` building a `Movie` with the given title.
    pub fn new(title: &str) -> (r: Self)
        ensures
            r@.title == title@,
            r@.year is None,
            r@.genre is None,
            r@.division is None,
            r@.description is None,
    {
        MovieBuilder { movie: Movie::new(title) }
    }

    /// Set the year of the `Movie`.
    pub fn with_year(&mut self, year: u32)
        ensures
            final(self)@ == (MovieView { year: Some(year), ..old(self)@ }),
    {
        self.movie.set_year(Some(year));
    }

    /// Set the genre of the `Movie`.
    pub fn with_genre(&mut self, genre: &str)
        ensures
            final(self)@ == (MovieView { genre: Some(genre@), ..old(self)@ }),
    {
        self.movie.set_genre(Some(genre.to_owned()));
    }

    /// Set the division of the `Movie`.
    pub fn with_division(&mut self, division: &str)
        ensures
            final(self)@ == (MovieView { division: Some(division@), ..old(self)@ }),
    {
        self.movie.set_division(Some(division.to_owned()));
    }

    /// Build the `Movie`.
    pub fn build(self) -> (r: Movie)
        ensures
            r@ == self@,
    {
        self.movie
    }
}

/// The view of one (channel, movie) pair.
pub open spec fn pair_view(p: (Channel, Movie)) -> (ChannelView, MovieView) {
    (p.0@, p.1@)
}

/// The television program: an ordered sequence of channels, each with its
/// programme entry, in source listing order.
#[derive(Debug, PartialEq, Eq)]
pub struct Program {
    content: Vec<(Channel, Movie)>,
}

impl View for Program {
    type V = Seq<(ChannelView, MovieView)>;

    closed spec fn view(&self) -> Seq<(ChannelView, MovieView)> {
        self.content@.map_values(|p: (Channel, Movie)| pair_view(p))
    }
}

impl Program {
    /// Create a new, empty program.
    pub fn new() -> (r: Self)
        ensures
            r@ == Seq::<(ChannelView, MovieView)>::empty(),
    {
        let r = Program { content: Vec::new() };
        proof {
            assert(r@ =~= Seq::<(ChannelView, MovieView)>::empty());
        }
        r
    }

    /// Add a channel and its movie to the end of the program.
    pub fn add(&mut self, channel: Channel, movie: Movie)
        ensures
            final(self)@ == old(self)@.push((channel@, movie@)),
    {
        let ghost pre = self.content@;
        self.content.push((channel, movie));
        proof {
            assert(self@ =~= old(self)@.push((channel@, movie@)));
        }
    }

    /// The number of (channel, movie) pairs.
    pub fn len(&self) -> (r: usize)
        ensures
            r == self@.len(),
    {
        self.content.len()
    }

    /// Borrow the pair at the given position.
    pub fn get(&self, index: usize) -> (r: &(Channel, Movie))
        requires
            index < self@.len(),
        ensures
            pair_view(*r) == self@[index as int],
    {
        &self.content[index]
    }

    /// Borrow the ordered pairs of the program.
    pub fn iter(&self) -> (r: &Vec<(Channel, Movie)>)
        ensures
            r@.map_values(|p: (Channel, Movie)| pair_view(p)) == self@,
            r@.len() == self@.len(),
    {
        &self.content
    }
}

impl Clone for Program {
    /// A clone has the same view as the original.
    fn clone(&self) -> (r: Self)
        ensures
            r@ == self@,
    {
        let mut content: Vec<(Channel, Movie)> = Vec::new();
        let mut i: usize = 0;
        while i < self.content.len()
            invariant
                i <= self.content@.len(),
                content@.len() == i,
                forall|k: int|
                    0 <= k < i ==> #[trigger] pair_view(content@[k]) == pair_view(self.content@[k]),
            decreases self.content@.len() - i,
        {
            let pair = &self.content[i];
            content.push((pair.0.clone(), pair.1.clone()));
            i += 1;
        }
        let r = Program { content };
        proof {
            assert(r@ =~= self@);
        }
        r
    }
}

} // verus!
