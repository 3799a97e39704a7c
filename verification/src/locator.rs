use vstd::prelude::*;
use crate::strs::{
    spec_find, spec_find_sub, find_char, find_sub, lemma_find, lemma_find_sub, str_eq,
};
use crate::xml::{Tok, TokV, tv, tokenize, spec_toks};

verus! {

use vstd::string::StrSliceExecFns;
use vstd::string::StringExecFns;

/// No entry of the primary type was found in an index document.
#[derive(Debug)]
pub enum LocateError {
    PrimaryNotFound,
}

/// The value of attribute `key` in the raw text of a tag: the text between
/// the first `key="` and the `"` that follows it, if both occur.
pub open spec fn spec_attr(raw: Seq<char>, key: Seq<char>) -> Option<Seq<char>> {
    let pat = key + "=\""@;
    match spec_find_sub(raw, pat, 0) {
        None => None,
        Some(j) => {
            let vstart = j + pat.len();
            match spec_find(raw, vstart, '"') {
                None => None,
                Some(e) => Some(raw.subrange(vstart, e)),
            }
        },
    }
}

/// Extracts an attribute value from a tag's raw text.
pub fn attr_value(raw: &str, key: &str) -> (r: Option<String>)
    ensures
        match r {
            Some(v) => spec_attr(raw@, key@) == Some(v@),
            None => spec_attr(raw@, key@) is None,
        },
{
    let pat = key.to_owned().concat("=\"");
    // Binding the length tells the verifier the index sums below fit usize.
    let raw_len = raw.unicode_len();
    match find_sub(raw, pat.as_str()) {
        None => None,
        Some(j) => {
            proof {
                lemma_find_sub(raw@, pat@, 0);
            }
            let vstart = j + pat.unicode_len();
            proof {
                lemma_find(raw@, vstart as int, '"');
            }
            match find_char(raw, vstart, '"') {
                None => None,
                Some(e) => Some(raw.substring_char(vstart, e).to_owned()),
            }
        },
    }
}

/// The single forward scan over an index document's tokens, from token `i`:
/// a `data` start records that entry's `type` attribute; a `location` start
/// inside a primary-typed entry captures its `href`; closing a `data` entry
/// with a captured href returns it at once; a fully consumed stream without
/// a capture is a miss.
pub open spec fn spec_locate_at(
    toks: Seq<TokV>,
    i: int,
    in_data: bool,
    dtype: Seq<char>,
    loc: Seq<char>,
) -> Option<Seq<char>>
    decreases toks.len() - i,
{
    if i < 0 || i >= toks.len() {
        None
    } else {
        match toks[i] {
            TokV::Start { name, raw } => {
                if name == "data"@ {
                    let d2 = match spec_attr(raw, "type"@) {
                        Some(t) => t,
                        None => dtype,
                    };
                    spec_locate_at(toks, i + 1, true, d2, loc)
                } else if name == "location"@ && in_data && dtype == "primary"@ {
                    let l2 = match spec_attr(raw, "href"@) {
                        Some(h) => h,
                        None => loc,
                    };
                    spec_locate_at(toks, i + 1, in_data, dtype, l2)
                } else {
                    spec_locate_at(toks, i + 1, in_data, dtype, loc)
                }
            },
            TokV::End { name } => {
                if name == "data"@ {
                    if loc.len() > 0 {
                        Some(loc)
                    } else {
                        spec_locate_at(toks, i + 1, false, dtype, loc)
                    }
                } else {
                    spec_locate_at(toks, i + 1, in_data, dtype, loc)
                }
            },
            TokV::Text { .. } => spec_locate_at(toks, i + 1, in_data, dtype, loc),
        }
    }
}

/// What the Locator finds in a token stream.
pub open spec fn spec_locate(toks: Seq<TokV>) -> Option<Seq<char>> {
    spec_locate_at(toks, 0, false, Seq::empty(), Seq::empty())
}

/// Scans an index document's tokens for the location of the primary listing.
pub fn locate_primary_toks(toks: &Vec<Tok>) -> (r: Result<String, LocateError>)
    ensures
        match r {
            Ok(href) => spec_locate(tv(toks@)) == Some(href@),
            Err(e) => spec_locate(tv(toks@)) is None && e is PrimaryNotFound,
        },
{
    let n = toks.len();
    let mut i: usize = 0;
    let mut in_data = false;
    let mut dtype = String::new();
    let mut loc = String::new();
    proof {
        assert(dtype@ =~= Seq::<char>::empty());
        assert(loc@ =~= Seq::<char>::empty());
    }
    while i < n
        invariant
            i <= n,
            n == toks@.len(),
            spec_locate(tv(toks@)) == spec_locate_at(tv(toks@), i as int, in_data, dtype@, loc@),
        decreases n - i,
    {
        let t = &toks[i];
        proof {
            assert(tv(toks@)[i as int] == toks@[i as int]@);
        }
        match t {
            Tok::Start { name, raw } => {
                if str_eq(name.as_str(), "data") {
                    in_data = true;
                    match attr_value(raw.as_str(), "type") {
                        Some(tval) => {
                            dtype = tval;
                        },
                        None => {},
                    }
                } else if str_eq(name.as_str(), "location") && in_data && str_eq(
                    dtype.as_str(),
                    "primary",
                ) {
                    match attr_value(raw.as_str(), "href") {
                        Some(h) => {
                            loc = h;
                        },
                        None => {},
                    }
                }
            },
            Tok::End { name } => {
                if str_eq(name.as_str(), "data") {
                    in_data = false;
                    if !loc.as_str().is_empty() {
                        return Ok(loc);
                    }
                }
            },
            Tok::Text { .. } => {},
        }
        i += 1;
    }
    Err(LocateError::PrimaryNotFound)
}

/// Resolves the primary listing's relative location from the text of an
/// index document, or reports that no primary entry exists.
pub fn locate_primary(doc: &str) -> (r: Result<String, LocateError>)
    ensures
        match r {
            Ok(href) => spec_locate(spec_toks(doc@, 0)) == Some(href@),
            Err(e) => spec_locate(spec_toks(doc@, 0)) is None && e is PrimaryNotFound,
        },
{
    let toks = tokenize(doc);
    locate_primary_toks(&toks)
}

} // verus!
