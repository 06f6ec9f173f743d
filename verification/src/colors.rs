//! The color scheme: a mapping from the sixteen keys `base00`..`base0f`
//! to string values, loaded from a YAML file's text and validated for
//! completeness before any rendering may use it.
use vstd::prelude::*;

use crate::text::{assoc_lookup, lemma_lookup_absent, lemma_lookup_first_match, lower, lowercase};
use crate::ColorError;

verus! {

/// The views of a sequence of owned string pairs.
pub open spec fn pairs_view(v: Seq<(String, String)>) -> Seq<(Seq<char>, Seq<char>)> {
    v.map_values(|p: (String, String)| (p.0@, p.1@))
}

/// The lowercase hexadecimal digit with value `i`.
pub open spec fn hex_digit_char(i: int) -> char {
    if i < 10 {
        ((('0' as u32) + i as u32) as char)
    } else {
        ((('a' as u32) + (i - 10) as u32) as char)
    }
}

/// The name of the color with index `i`: `base00` for 0 up to `base0f`
/// for 15.
pub open spec fn color_key(i: int) -> Seq<char> {
    seq!['b', 'a', 's', 'e', '0', hex_digit_char(i)]
}

/// Every one of the sixteen required keys is present in the mapping.
pub open spec fn scheme_complete(pairs: Seq<(Seq<char>, Seq<char>)>) -> bool {
    forall|i: int| 0 <= i < 16 ==> assoc_lookup(pairs, color_key(i)) is Some
}

/// The sixteen color values of a complete mapping, in key order and
/// lowercased.
pub open spec fn scheme_of(pairs: Seq<(Seq<char>, Seq<char>)>) -> Seq<Seq<char>> {
    Seq::new(16, |i: int| lower(assoc_lookup(pairs, color_key(i))->Some_0))
}

/// The sixteen-color palette available to templates. The value with
/// index `i` belongs to the key `base0` followed by the hex digit `i`.
#[derive(Debug)]
pub struct ColorScheme {
    values: Vec<String>,
}

impl View for ColorScheme {
    type V = Seq<Seq<char>>;

    closed spec fn view(&self) -> Seq<Seq<char>> {
        self.values@.map_values(|v: String| v@)
    }
}

impl ColorScheme {
    /// A color scheme is well formed when it holds exactly sixteen values.
    pub open spec fn wf(&self) -> bool {
        self@.len() == 16
    }

    /// The value of the color with index `i`.
    pub fn value(&self, i: usize) -> (r: &String)
        requires
            self.wf(),
            i < 16,
        ensures
            r@ == self@[i as int],
    {
        &self.values[i]
    }
}

/// The lowercase hexadecimal digit with value `i`.
fn hex_digit_char_exec(i: usize) -> (c: char)
    requires
        i < 16,
    ensures
        c == hex_digit_char(i as int),
{
    let u: u32 = if i < 10 {
        ('0' as u32) + (i as u32)
    } else {
        ('a' as u32) + (i as u32) - 10
    };
    ((u as u8) as char)
}

/// Builds the string `base0` followed by the hex digit `i`.
fn color_key_exec(i: usize) -> (k: String)
    requires
        i < 16,
    ensures
        k@ == color_key(i as int),
{
    let mut k = String::new();
    k.push('b');
    k.push('a');
    k.push('s');
    k.push('e');
    k.push('0');
    k.push(hex_digit_char_exec(i));
    proof {
        assert(k@ =~= color_key(i as int));
    }
    k
}

/// First-match lookup of `key` among owned string pairs.
fn find_pair<'a>(pairs: &'a Vec<(String, String)>, key: &String) -> (r: Option<&'a String>)
    ensures
        match r {
            Some(v) => assoc_lookup(pairs_view(pairs@), key@) == Some(v@),
            None => assoc_lookup(pairs_view(pairs@), key@) is None,
        },
{
    let n = pairs.len();
    let mut j: usize = 0;
    while j < n
        invariant
            j <= n,
            n == pairs@.len(),
            forall|m: int| 0 <= m < j ==> pairs_view(pairs@)[m].0 != key@,
        decreases n - j,
    {
        if pairs[j].0 == *key {
            proof {
                lemma_lookup_first_match(pairs_view(pairs@), key@, j as int);
            }
            return Some(&pairs[j].1);
        }
        j = j + 1;
    }
    proof {
        lemma_lookup_absent(pairs_view(pairs@), key@);
    }
    None
}

/// Validates a flat string mapping as a color scheme: all sixteen keys
/// `base00`..`base0f` must be present; their values are taken lowercased,
/// in key order. Fails with `IncompleteColorScheme` when any key is
/// absent, and succeeds exactly when all sixteen are present.
pub fn color_scheme_from_pairs(pairs: &Vec<(String, String)>) -> (r: Result<
    ColorScheme,
    ColorError,
>)
    ensures
        match r {
            Ok(cs) => {
                &&& scheme_complete(pairs_view(pairs@))
                &&& cs.wf()
                &&& cs@ == scheme_of(pairs_view(pairs@))
            },
            Err(e) => {
                &&& e == ColorError::IncompleteColorScheme
                &&& !scheme_complete(pairs_view(pairs@))
            },
        },
{
    let mut values: Vec<String> = Vec::new();
    let mut i: usize = 0;
    while i < 16
        invariant
            i <= 16,
            values@.len() == i,
            forall|m: int| 0 <= m < i ==> assoc_lookup(pairs_view(pairs@), color_key(m)) is Some,
            forall|m: int|
                0 <= m < i ==> values@[m]@ == lower(
                    assoc_lookup(pairs_view(pairs@), color_key(m))->Some_0,
                ),
        decreases 16 - i,
    {
        let key = color_key_exec(i);
        match find_pair(pairs, &key) {
            Some(v) => {
                values.push(lowercase(v.as_str()));
            },
            None => {
                return Err(ColorError::IncompleteColorScheme);
            },
        }
        i = i + 1;
    }
    let cs = ColorScheme { values };
    proof {
        assert(cs@ =~= scheme_of(pairs_view(pairs@)));
    }
    Ok(cs)
}

/// What `yaml_rust::YamlLoader::load_from_str` yields on a given text,
/// reduced to a flat string mapping: the first document's pairs when that
/// document is a mapping of strings to strings, and nothing otherwise.
pub uninterp spec fn yaml_flat_map_of(s: Seq<char>) -> Option<Seq<(Seq<char>, Seq<char>)>>;

/// Relies on `yaml_rust::YamlLoader::load_from_str` to parse YAML text,
/// a function of the text alone. Returns the first document as string
/// pairs in document order when it is a flat string-to-string mapping;
/// returns nothing when the text does not parse, holds no document, or
/// its first document is anything else.
#[verifier::external_body]
fn parse_flat_mapping(s: &str) -> (r: Option<Vec<(String, String)>>)
    ensures
        match r {
            Some(v) => yaml_flat_map_of(s@) == Some(pairs_view(v@)),
            None => yaml_flat_map_of(s@) is None,
        },
{
    let docs = yaml_rust::YamlLoader::load_from_str(s).ok()?;
    let h = match docs.into_iter().next() {
        Some(yaml_rust::Yaml::Hash(h)) => h,
        _ => return None,
    };
    let mut out: Vec<(String, String)> = Vec::new();
    for (k, v) in h {
        match (k, v) {
            (yaml_rust::Yaml::String(ks), yaml_rust::Yaml::String(vs)) => out.push((ks, vs)),
            _ => return None,
        }
    }
    Some(out)
}

/// Loads a color scheme from the text of a color file: the text must
/// parse as a flat string-to-string mapping holding all sixteen keys
/// `base00`..`base0f`. Fails with `MalformedColorData` when the text is
/// no such mapping and with `IncompleteColorScheme` when a required key
/// is absent.
pub fn load_color_scheme(text: &str) -> (r: Result<ColorScheme, ColorError>)
    ensures
        match r {
            Ok(cs) => {
                &&& yaml_flat_map_of(text@) matches Some(pairs)
                &&& scheme_complete(pairs)
                &&& cs.wf()
                &&& cs@ == scheme_of(pairs)
            },
            Err(ColorError::MalformedColorData) => yaml_flat_map_of(text@) is None,
            Err(ColorError::IncompleteColorScheme) => {
                &&& yaml_flat_map_of(text@) matches Some(pairs)
                &&& !scheme_complete(pairs)
            },
            Err(ColorError::MissingColorFile) => false,
        },
{
    match parse_flat_mapping(text) {
        Some(pairs) => color_scheme_from_pairs(&pairs),
        None => Err(ColorError::MalformedColorData),
    }
}

} // verus!
