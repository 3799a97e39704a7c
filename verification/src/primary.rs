use vstd::prelude::*;
use crate::pkg::{Package, PackageName, PackageV, NameV, Version, VersionV, spec_version_parse};
use crate::pkgset::PackageSet;
use crate::strs::str_eq;
use crate::xml::{Tok, TokV, tv, tokenize, spec_toks};

verus! {

use vstd::string::StrSliceExecFns;
use vstd::string::StringExecFns;

/// The parser's tagged state: outside any package element, or inside one,
/// carrying the record built so far.
pub enum ParseState {
    Idle,
    InPackage(Package),
}

/// The ghost parse state: the record under construction, if any, and the
/// text accumulated since the last element start.
pub struct ParseStV {
    pub cur: Option<PackageV>,
    pub acc: Seq<char>,
}

pub open spec fn st_of(state: &ParseState, acc: &String) -> ParseStV {
    ParseStV {
        cur: match state {
            ParseState::Idle => None,
            ParseState::InPackage(p) => Some(p@),
        },
        acc: acc@,
    }
}

/// The freshly initialized record of a package element: placeholder name,
/// zero version, empty description.
pub open spec fn placeholder_pkg() -> PackageV {
    crate::pkg::fresh_pkg(
        NameV { name: "unknown"@, arch: "x86_64"@ },
        VersionV { epoch: 0, version: "0"@, release: "0"@ },
        Seq::empty(),
    )
}

/// One transition of the parser: element starts reset the accumulator (and
/// a `package` start opens a fresh record), text extends the accumulator,
/// and element ends dispatch on the tag name. A `name` end keeps the
/// placeholder when the accumulated text is empty; a `version` end keeps
/// the prior version when the text has no valid split; a `package` end
/// inserts the record unless its name never left the placeholder.
pub open spec fn spec_parse_step(t: TokV, st: ParseStV, out: Map<Seq<char>, PackageV>) -> (
    ParseStV,
    Map<Seq<char>, PackageV>,
) {
    match t {
        TokV::Start { name, .. } => (
            ParseStV {
                cur: if name == "package"@ {
                    Some(placeholder_pkg())
                } else {
                    st.cur
                },
                acc: Seq::empty(),
            },
            out,
        ),
        TokV::Text { text } => (ParseStV { cur: st.cur, acc: st.acc + text }, out),
        TokV::End { name } => match st.cur {
            None => (st, out),
            Some(p) => {
                if name == "name"@ {
                    if st.acc.len() > 0 {
                        (
                            ParseStV {
                                cur: Some(
                                    PackageV { name: NameV { name: st.acc, ..p.name }, ..p },
                                ),
                                acc: st.acc,
                            },
                            out,
                        )
                    } else {
                        (st, out)
                    }
                } else if name == "arch"@ {
                    (
                        ParseStV {
                            cur: Some(PackageV { name: NameV { arch: st.acc, ..p.name }, ..p }),
                            acc: st.acc,
                        },
                        out,
                    )
                } else if name == "summary"@ {
                    (ParseStV { cur: Some(PackageV { summary: st.acc, ..p }), acc: st.acc }, out)
                } else if name == "description"@ {
                    (
                        ParseStV { cur: Some(PackageV { description: st.acc, ..p }), acc: st.acc },
                        out,
                    )
                } else if name == "version"@ {
                    match spec_version_parse(st.acc) {
                        Some(v) => (
                            ParseStV { cur: Some(PackageV { version: v, ..p }), acc: st.acc },
                            out,
                        ),
                        None => (st, out),
                    }
                } else if name == "package"@ {
                    if p.name.name != "unknown"@ {
                        (ParseStV { cur: None, acc: st.acc }, out.insert(p.name.name, p))
                    } else {
                        (ParseStV { cur: None, acc: st.acc }, out)
                    }
                } else {
                    (st, out)
                }
            },
        },
    }
}

/// The package map produced by running the parser over the tokens from
/// index `i` on, starting from state `st` and already-inserted records `out`.
pub open spec fn spec_parse_at(
    toks: Seq<TokV>,
    i: int,
    st: ParseStV,
    out: Map<Seq<char>, PackageV>,
) -> Map<Seq<char>, PackageV>
    decreases toks.len() - i,
{
    if i < 0 || i >= toks.len() {
        out
    } else {
        let (st2, out2) = spec_parse_step(toks[i], st, out);
        spec_parse_at(toks, i + 1, st2, out2)
    }
}

pub open spec fn init_parse_st() -> ParseStV {
    ParseStV { cur: None, acc: Seq::empty() }
}

/// What parsing a token stream adds to an existing package map.
pub open spec fn spec_parse(toks: Seq<TokV>, out: Map<Seq<char>, PackageV>) -> Map<
    Seq<char>,
    PackageV,
> {
    spec_parse_at(toks, 0, init_parse_st(), out)
}

fn placeholder_exec() -> (r: Package)
    ensures
        r@ == placeholder_pkg(),
        r.name.name@.len() > 0,
{
    proof {
        reveal_strlit("unknown");
    }
    Package::new(
        PackageName { name: "unknown".to_owned(), arch: "x86_64".to_owned() },
        Version { epoch: 0, version: "0".to_owned(), release: "0".to_owned() },
        String::new(),
    )
}

/// Streams a primary listing's tokens into a package set: one forward pass,
/// tolerating unknown tags, keeping whatever records were already inserted.
pub fn parse_primary_toks(toks: &Vec<Tok>, ps: &mut PackageSet)
    requires
        old(ps).wf(),
    ensures
        final(ps).wf(),
        final(ps)@ == spec_parse(tv(toks@), old(ps)@),
{
    let ghost tvs = tv(toks@);
    let n = toks.len();
    let mut i: usize = 0;
    let mut state = ParseState::Idle;
    let mut acc = String::new();
    proof {
        assert(st_of(&state, &acc) == init_parse_st());
    }
    while i < n
        invariant
            i <= n,
            n == toks@.len(),
            tvs == tv(toks@),
            ps.wf(),
            match state {
                ParseState::Idle => true,
                ParseState::InPackage(ref p) => p.name.name@.len() > 0,
            },
            spec_parse(tvs, old(ps)@) == spec_parse_at(tvs, i as int, st_of(&state, &acc), ps@),
        decreases n - i,
    {
        let ghost st0 = st_of(&state, &acc);
        let ghost out0 = ps@;
        proof {
            assert(tvs[i as int] == toks@[i as int]@);
        }
        let t = &toks[i];
        match t {
            Tok::Start { name, .. } => {
                acc = String::new();
                if str_eq(name.as_str(), "package") {
                    state = ParseState::InPackage(placeholder_exec());
                }
            },
            Tok::Text { text } => {
                acc.append(text.as_str());
            },
            Tok::End { name } => {
                let cur = state;
                state = ParseState::Idle;
                match cur {
                    ParseState::Idle => {},
                    ParseState::InPackage(mut p) => {
                        if str_eq(name.as_str(), "name") {
                            if acc.unicode_len() > 0 {
                                p.name.name = acc.clone();
                            }
                            state = ParseState::InPackage(p);
                        } else if str_eq(name.as_str(), "arch") {
                            p.name.arch = acc.clone();
                            state = ParseState::InPackage(p);
                        } else if str_eq(name.as_str(), "summary") {
                            p.summary = acc.clone();
                            state = ParseState::InPackage(p);
                        } else if str_eq(name.as_str(), "description") {
                            p.description = acc.clone();
                            state = ParseState::InPackage(p);
                        } else if str_eq(name.as_str(), "version") {
                            match Version::parse(acc.as_str()) {
                                Ok(v) => {
                                    p.version = v;
                                },
                                Err(_) => {},
                            }
                            state = ParseState::InPackage(p);
                        } else if str_eq(name.as_str(), "package") {
                            if !str_eq(p.name.name.as_str(), "unknown") {
                                ps.upsert(p);
                            }
                        } else {
                            state = ParseState::InPackage(p);
                        }
                    },
                }
            },
        }
        proof {
            let (st2, out2) = spec_parse_step(tvs[i as int], st0, out0);
            assert(st_of(&state, &acc) == st2);
            assert(ps@ == out2);
            assert(spec_parse_at(tvs, i as int, st0, out0) == spec_parse_at(
                tvs,
                i as int + 1,
                st2,
                out2,
            ));
        }
        i += 1;
    }
}

/// Parses the text of a primary listing into a package set.
pub fn parse_primary(doc: &str, ps: &mut PackageSet)
    requires
        old(ps).wf(),
    ensures
        final(ps).wf(),
        final(ps)@ == spec_parse(spec_toks(doc@, 0), old(ps)@),
{
    let toks = tokenize(doc);
    parse_primary_toks(&toks, ps);
}

} // verus!
