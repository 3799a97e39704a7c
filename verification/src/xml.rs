use vstd::prelude::*;
use crate::strs::{spec_find, spec_find_ws, find_char, find_ws, lemma_find, lemma_find_ws};

verus! {

use vstd::string::StrSliceExecFns;
use vstd::string::StringExecFns;

/// One event of a tag-structured document: an element start (with the raw
/// text between the angle brackets), an element end, or a run of text.
pub enum Tok {
    Start { name: String, raw: String },
    End { name: String },
    Text { text: String },
}

pub enum TokV {
    Start { name: Seq<char>, raw: Seq<char> },
    End { name: Seq<char> },
    Text { text: Seq<char> },
}

impl View for Tok {
    type V = TokV;

    open spec fn view(&self) -> TokV {
        match self {
            Tok::Start { name, raw } => TokV::Start { name: name@, raw: raw@ },
            Tok::End { name } => TokV::End { name: name@ },
            Tok::Text { text } => TokV::Text { text: text@ },
        }
    }
}

/// The views of a token sequence.
pub open spec fn tv(ts: Seq<Tok>) -> Seq<TokV> {
    Seq::new(ts.len(), |i: int| ts[i]@)
}

pub proof fn lemma_tv_push(ts: Seq<Tok>, t: Tok)
    ensures
        tv(ts.push(t)) == tv(ts).push(t@),
{
    assert(tv(ts.push(t)) =~= tv(ts).push(t@));
}

/// The prefix of `t` up to (excluding) its first whitespace character.
pub open spec fn spec_upto_ws(t: Seq<char>) -> Seq<char> {
    match spec_find_ws(t, 0) {
        Some(j) => t.subrange(0, j),
        None => t,
    }
}

fn upto_ws_exec(t: &str) -> (r: String)
    ensures
        r@ == spec_upto_ws(t@),
{
    match find_ws(t, 0) {
        Some(j) => {
            proof {
                lemma_find_ws(t@, 0);
            }
            t.substring_char(0, j).to_owned()
        },
        None => t.to_owned(),
    }
}

/// A nonempty run of text becomes one text token; an empty run, nothing.
pub open spec fn emit_text(t: Seq<char>) -> Seq<TokV> {
    if t.len() == 0 {
        Seq::empty()
    } else {
        seq![TokV::Text { text: t }]
    }
}

/// The tokens of one tag given the text between its angle brackets: a
/// leading `/` marks an end tag, `?` and `!` mark declarations and comments
/// (skipped), a trailing `/` marks an empty element (a start immediately
/// closed), and anything else a start tag named up to the first whitespace.
pub open spec fn tag_toks(inner: Seq<char>) -> Seq<TokV> {
    if inner.len() == 0 {
        Seq::empty()
    } else if inner[0] == '/' {
        seq![TokV::End { name: spec_upto_ws(inner.subrange(1, inner.len() as int)) }]
    } else if inner[0] == '?' || inner[0] == '!' {
        Seq::empty()
    } else if inner[inner.len() - 1] == '/' {
        let body = inner.subrange(0, inner.len() - 1);
        let nm = spec_upto_ws(body);
        seq![TokV::Start { name: nm, raw: body }, TokV::End { name: nm }]
    } else {
        seq![TokV::Start { name: spec_upto_ws(inner), raw: inner }]
    }
}

/// The token sequence of the document text from position `i` on: text up to
/// the next `<`, then the tag up to the next `>`, and so on. A `<` that is
/// never closed by a `>` ends the scan early, dropping the malformed tail.
pub open spec fn spec_toks(s: Seq<char>, i: int) -> Seq<TokV>
    decreases s.len() - i,
    when 0 <= i
    via spec_toks_dec
{
    if i >= s.len() {
        Seq::empty()
    } else {
        match spec_find(s, i, '<') {
            None => emit_text(s.subrange(i, s.len() as int)),
            Some(lt) => {
                let pre = emit_text(s.subrange(i, lt));
                match spec_find(s, lt + 1, '>') {
                    None => pre,
                    Some(gt) => pre + tag_toks(s.subrange(lt + 1, gt)) + spec_toks(s, gt + 1),
                }
            },
        }
    }
}

#[via_fn]
proof fn spec_toks_dec(s: Seq<char>, i: int) {
    if i < s.len() {
        lemma_find(s, i, '<');
        match spec_find(s, i, '<') {
            None => {},
            Some(lt) => {
                lemma_find(s, lt + 1, '>');
            },
        }
    }
}

fn push_tag_toks(out: &mut Vec<Tok>, inner: &str)
    ensures
        tv(final(out)@) == tv(old(out)@) + tag_toks(inner@),
{
    let m = inner.unicode_len();
    if m == 0 {
        proof {
            assert(tv(out@) =~= tv(out@) + tag_toks(inner@));
        }
        return ;
    }
    let c0 = inner.get_char(0);
    if c0 == '/' {
        let rest = inner.substring_char(1, m);
        let name = upto_ws_exec(rest);
        let ghost pre = out@;
        out.push(Tok::End { name });
        proof {
            lemma_tv_push(pre, out@[out@.len() - 1]);
            assert(tv(out@) =~= tv(pre) + tag_toks(inner@));
        }
    } else if c0 == '?' || c0 == '!' {
        proof {
            assert(tv(out@) =~= tv(out@) + tag_toks(inner@));
        }
    } else if inner.get_char(m - 1) == '/' {
        let body = inner.substring_char(0, m - 1);
        let name = upto_ws_exec(body);
        let raw = body.to_owned();
        let ghost pre = out@;
        out.push(Tok::Start { name: name.clone(), raw });
        proof {
            lemma_tv_push(pre, out@[out@.len() - 1]);
        }
        let ghost mid = out@;
        out.push(Tok::End { name });
        proof {
            lemma_tv_push(mid, out@[out@.len() - 1]);
            assert(tv(out@) =~= tv(pre) + tag_toks(inner@));
        }
    } else {
        let name = upto_ws_exec(inner);
        let raw = inner.to_owned();
        let ghost pre = out@;
        out.push(Tok::Start { name, raw });
        proof {
            lemma_tv_push(pre, out@[out@.len() - 1]);
            assert(tv(out@) =~= tv(pre) + tag_toks(inner@));
        }
    }
}

/// Tokenizes a whole document text by one forward scan.
pub fn tokenize(s: &str) -> (r: Vec<Tok>)
    ensures
        tv(r@) == spec_toks(s@, 0),
{
    let n = s.unicode_len();
    let mut out: Vec<Tok> = Vec::new();
    let mut i: usize = 0;
    proof {
        assert(tv(out@) =~= Seq::<TokV>::empty());
        assert(spec_toks(s@, 0) =~= tv(out@) + spec_toks(s@, 0));
    }
    loop
        invariant
            i <= n,
            n == s@.len(),
            spec_toks(s@, 0) == tv(out@) + spec_toks(s@, i as int),
        decreases n - i,
    {
        if i >= n {
            proof {
                assert(spec_toks(s@, i as int) =~= Seq::<TokV>::empty());
                assert(tv(out@) + spec_toks(s@, i as int) =~= tv(out@));
            }
            return out;
        }
        proof {
            lemma_find(s@, i as int, '<');
        }
        match find_char(s, i, '<') {
            None => {
                let t = s.substring_char(i, n);
                let ghost pre = tv(out@);
                let ghost seg = s@.subrange(i as int, n as int);
                if t.unicode_len() > 0 {
                    let ghost before = out@;
                    out.push(Tok::Text { text: t.to_owned() });
                    proof {
                        lemma_tv_push(before, out@[out@.len() - 1]);
                    }
                }
                proof {
                    assert(spec_toks(s@, i as int) == emit_text(seg));
                    assert(tv(out@) =~= pre + emit_text(seg));
                    assert(tv(out@) =~= spec_toks(s@, 0));
                }
                return out;
            },
            Some(lt) => {
                let ghost pre = tv(out@);
                let ghost seg = s@.subrange(i as int, lt as int);
                if lt > i {
                    let t = s.substring_char(i, lt);
                    let ghost before = out@;
                    out.push(Tok::Text { text: t.to_owned() });
                    proof {
                        lemma_tv_push(before, out@[out@.len() - 1]);
                    }
                }
                proof {
                    assert(tv(out@) =~= pre + emit_text(seg));
                    lemma_find(s@, lt as int + 1, '>');
                }
                match find_char(s, lt + 1, '>') {
                    None => {
                        proof {
                            assert(spec_toks(s@, i as int) == emit_text(seg));
                            assert(tv(out@) =~= spec_toks(s@, 0));
                        }
                        return out;
                    },
                    Some(gt) => {
                        let inner = s.substring_char(lt + 1, gt);
                        let ghost inner_seg = s@.subrange(lt as int + 1, gt as int);
                        push_tag_toks(&mut out, inner);
                        proof {
                            assert(spec_toks(s@, i as int) == emit_text(seg) + tag_toks(inner_seg)
                                + spec_toks(s@, gt + 1));
                            assert(tv(out@) =~= pre + emit_text(seg) + tag_toks(inner_seg));
                            assert(tv(out@) + spec_toks(s@, gt + 1) =~= spec_toks(s@, 0));
                        }
                        i = gt + 1;
                    },
                }
            },
        }
    }
}

} // verus!
