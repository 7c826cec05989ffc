//! Request-side models: search parameters and the image choice for cover art.
use vstd::prelude::*;

use crate::url::pairs_view;

verus! {

/// An image attached to a resource.
#[derive(Clone, Debug)]
pub struct Image {
    pub image_type: Option<String>,
    pub uri: Option<String>,
    pub uri150: Option<String>,
    pub resource_url: Option<String>,
    pub width: Option<u32>,
    pub height: Option<u32>,
}

/// Whether the image is marked `primary`.
pub open spec fn is_primary(img: Image) -> bool {
    match img.image_type {
        Some(t) => t@ == "primary"@,
        None => false,
    }
}

/// Position of the first primary image, or -1.
pub open spec fn primary_index(imgs: Seq<Image>) -> int
    decreases imgs.len(),
{
    if imgs.len() == 0 {
        -1
    } else {
        let r = primary_index(imgs.drop_last());
        if r >= 0 {
            r
        } else if is_primary(imgs.last()) {
            imgs.len() - 1
        } else {
            -1
        }
    }
}

/// The first primary image, else the first image; none for an empty list.
pub fn pick_primary_image(images: &[Image]) -> (r: Option<&Image>)
    ensures
        primary_index(images@) >= 0 ==> r == Some(&images@[primary_index(images@)]),
        primary_index(images@) < 0 && images@.len() > 0 ==> r == Some(&images@[0]),
        images@.len() == 0 ==> r is None,
{
    let primary = String::from_str("primary");
    let mut i: usize = 0;
    while i < images.len()
        invariant
            i <= images@.len(),
            primary@ == "primary"@,
            primary_index(images@.take(i as int)) == -1,
        decreases images@.len() - i,
    {
        assert(images@.take(i + 1).drop_last() =~= images@.take(i as int));
        let hit = match &images[i].image_type {
            Some(t) => *t == primary,
            None => false,
        };
        if hit {
            proof {
                lemma_primary_index_prefix(images@, i as int + 1);
            }
            return Some(&images[i]);
        }
        i += 1;
    }
    assert(images@.take(images@.len() as int) =~= images@);
    if images.len() == 0 {
        None
    } else {
        Some(&images[0])
    }
}

/// The image to download as cover art: the one `pick_primary_image` takes,
/// provided it has an address.
pub fn cover_image(images: &[Image]) -> (r: Option<&Image>)
    ensures
        primary_index(images@) >= 0 ==> r == (if images@[primary_index(images@)].uri is Some {
            Some(&images@[primary_index(images@)])
        } else {
            None
        }),
        primary_index(images@) < 0 && images@.len() > 0 ==> r == (if images@[0].uri is Some {
            Some(&images@[0])
        } else {
            None
        }),
        images@.len() == 0 ==> r is None,
{
    match pick_primary_image(images) {
        Some(img) => {
            if img.uri.is_some() {
                Some(img)
            } else {
                None
            }
        },
        None => None,
    }
}

/// Once a prefix holds a primary image, the whole list has it at the same
/// place.
proof fn lemma_primary_index_prefix(imgs: Seq<Image>, n: int)
    requires
        0 <= n <= imgs.len(),
        primary_index(imgs.take(n)) >= 0,
    ensures
        primary_index(imgs) == primary_index(imgs.take(n)),
    decreases imgs.len() - n,
{
    if n < imgs.len() {
        assert(imgs.take(n + 1).drop_last() =~= imgs.take(n));
        lemma_primary_index_prefix(imgs, n + 1);
    } else {
        assert(imgs.take(n) =~= imgs);
    }
}

/// The kind of resource a search looks for.
#[derive(Clone, Copy, Debug, PartialEq, Eq, Structural)]
pub enum SearchType {
    Release,
    Master,
    Artist,
    Label,
}

/// The name of a search type in a query.
pub open spec fn search_type_name(t: SearchType) -> Seq<char> {
    match t {
        SearchType::Release => "release"@,
        SearchType::Master => "master"@,
        SearchType::Artist => "artist"@,
        SearchType::Label => "label"@,
    }
}

impl SearchType {
    /// The name of the type as the search endpoint expects it.
    pub fn to_string(&self) -> (r: String)
        ensures
            r@ == search_type_name(*self),
    {
        match self {
            SearchType::Release => String::from_str("release"),
            SearchType::Master => String::from_str("master"),
            SearchType::Artist => String::from_str("artist"),
            SearchType::Label => String::from_str("label"),
        }
    }
}

/// Parameters of the search endpoint; a field that is `None` is left out.
#[derive(Clone, Debug)]
pub struct SearchParams {
    pub query: Option<String>,
    pub search_type: Option<SearchType>,
    pub title: Option<String>,
    pub release_title: Option<String>,
    pub artist: Option<String>,
    pub label: Option<String>,
    pub genre: Option<String>,
    pub style: Option<String>,
    pub country: Option<String>,
    pub year: Option<String>,
    pub format: Option<String>,
    pub catno: Option<String>,
    pub barcode: Option<String>,
}

/// Whether `o` holds text equal to `s`.
pub open spec fn holds(o: Option<String>, s: Seq<char>) -> bool {
    o is Some && o->0@ == s
}

/// The pair `(name, value)` when the value is there; nothing otherwise.
pub open spec fn opt_pair(name: Seq<char>, o: Option<String>) -> Seq<(Seq<char>, Seq<char>)> {
    match o {
        Some(v) => seq![(name, v@)],
        None => seq![],
    }
}

/// The query pairs of a search, in a fixed order of fields.
pub open spec fn search_pairs(p: SearchParams) -> Seq<(Seq<char>, Seq<char>)> {
    opt_pair("q"@, p.query) + match p.search_type {
        Some(t) => seq![("type"@, search_type_name(t))],
        None => seq![],
    } + opt_pair("title"@, p.title) + opt_pair("release_title"@, p.release_title) + opt_pair(
        "artist"@,
        p.artist,
    ) + opt_pair("label"@, p.label) + opt_pair("genre"@, p.genre) + opt_pair("style"@, p.style)
        + opt_pair("country"@, p.country) + opt_pair("year"@, p.year) + opt_pair("format"@, p.format)
        + opt_pair("catno"@, p.catno) + opt_pair("barcode"@, p.barcode)
}

/// A set of no parameters.
pub open spec fn no_params(p: SearchParams) -> bool {
    &&& p.query is None
    &&& p.search_type is None
    &&& p.title is None
    &&& p.release_title is None
    &&& p.artist is None
    &&& p.label is None
    &&& p.genre is None
    &&& p.style is None
    &&& p.country is None
    &&& p.year is None
    &&& p.format is None
    &&& p.catno is None
    &&& p.barcode is None
}

impl Default for SearchParams {
    fn default() -> (r: Self)
        ensures
            no_params(r),
    {
        SearchParams {
            query: None,
            search_type: None,
            title: None,
            release_title: None,
            artist: None,
            label: None,
            genre: None,
            style: None,
            country: None,
            year: None,
            format: None,
            catno: None,
            barcode: None,
        }
    }
}

/// Appends `(name, value)` when the value is there.
fn push_opt(
    pairs: &mut Vec<(&'static str, String)>,
    name: &'static str,
    o: &Option<String>,
)
    ensures
        pairs_view(final(pairs)@) == pairs_view(old(pairs)@) + opt_pair(name@, *o),
{
    let ghost before = pairs@;
    if let Some(v) = o {
        pairs.push((name, v.clone()));
        assert(pairs_view(pairs@) =~= pairs_view(before) + opt_pair(name@, *o));
    } else {
        assert(pairs_view(pairs@) =~= pairs_view(before) + opt_pair(name@, *o));
    }
}

impl SearchParams {
    pub fn new() -> (r: Self)
        ensures
            no_params(r),
    {
        Self::default()
    }

    pub fn query(self, q: &str) -> (r: Self)
        ensures
            holds(r.query, q@),
            r == (SearchParams { query: r.query, ..self }),
    {
        SearchParams { query: Some(String::from_str(q)), ..self }
    }

    pub fn search_type(self, t: SearchType) -> (r: Self)
        ensures
            r == (SearchParams { search_type: Some(t), ..self }),
    {
        SearchParams { search_type: Some(t), ..self }
    }

    pub fn artist(self, a: &str) -> (r: Self)
        ensures
            holds(r.artist, a@),
            r == (SearchParams { artist: r.artist, ..self }),
    {
        SearchParams { artist: Some(String::from_str(a)), ..self }
    }

    pub fn title(self, t: &str) -> (r: Self)
        ensures
            holds(r.title, t@),
            r == (SearchParams { title: r.title, ..self }),
    {
        SearchParams { title: Some(String::from_str(t)), ..self }
    }

    pub fn label(self, l: &str) -> (r: Self)
        ensures
            holds(r.label, l@),
            r == (SearchParams { label: r.label, ..self }),
    {
        SearchParams { label: Some(String::from_str(l)), ..self }
    }

    pub fn genre(self, g: &str) -> (r: Self)
        ensures
            holds(r.genre, g@),
            r == (SearchParams { genre: r.genre, ..self }),
    {
        SearchParams { genre: Some(String::from_str(g)), ..self }
    }

    pub fn style(self, s: &str) -> (r: Self)
        ensures
            holds(r.style, s@),
            r == (SearchParams { style: r.style, ..self }),
    {
        SearchParams { style: Some(String::from_str(s)), ..self }
    }

    pub fn country(self, c: &str) -> (r: Self)
        ensures
            holds(r.country, c@),
            r == (SearchParams { country: r.country, ..self }),
    {
        SearchParams { country: Some(String::from_str(c)), ..self }
    }

    pub fn year(self, y: &str) -> (r: Self)
        ensures
            holds(r.year, y@),
            r == (SearchParams { year: r.year, ..self }),
    {
        SearchParams { year: Some(String::from_str(y)), ..self }
    }

    pub fn format(self, f: &str) -> (r: Self)
        ensures
            holds(r.format, f@),
            r == (SearchParams { format: r.format, ..self }),
    {
        SearchParams { format: Some(String::from_str(f)), ..self }
    }

    pub fn catno(self, c: &str) -> (r: Self)
        ensures
            holds(r.catno, c@),
            r == (SearchParams { catno: r.catno, ..self }),
    {
        SearchParams { catno: Some(String::from_str(c)), ..self }
    }

    pub fn barcode(self, b: &str) -> (r: Self)
        ensures
            holds(r.barcode, b@),
            r == (SearchParams { barcode: r.barcode, ..self }),
    {
        SearchParams { barcode: Some(String::from_str(b)), ..self }
    }

    /// The fields that are set, as query pairs in a fixed order.
    pub fn as_query_pairs(&self) -> (r: Vec<(&'static str, String)>)
        ensures
            pairs_view(r@) == search_pairs(*self),
    {
        let mut pairs: Vec<(&'static str, String)> = Vec::new();
        assert(pairs_view(pairs@) =~= seq![]);
        push_opt(&mut pairs, "q", &self.query);
        let ghost before = pairs@;
        if let Some(t) = &self.search_type {
            pairs.push(("type", t.to_string()));
        }
        assert(pairs_view(pairs@) =~= pairs_view(before) + match self.search_type {
            Some(t) => seq![("type"@, search_type_name(t))],
            None => seq![],
        });
        push_opt(&mut pairs, "title", &self.title);
        push_opt(&mut pairs, "release_title", &self.release_title);
        push_opt(&mut pairs, "artist", &self.artist);
        push_opt(&mut pairs, "label", &self.label);
        push_opt(&mut pairs, "genre", &self.genre);
        push_opt(&mut pairs, "style", &self.style);
        push_opt(&mut pairs, "country", &self.country);
        push_opt(&mut pairs, "year", &self.year);
        push_opt(&mut pairs, "format", &self.format);
        push_opt(&mut pairs, "catno", &self.catno);
        push_opt(&mut pairs, "barcode", &self.barcode);
        assert(pairs_view(pairs@) =~= search_pairs(*self));
        pairs
    }
}

} // verus!
