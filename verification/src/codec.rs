//! The persisted form of the managed-game list.
//!
//! The record is one line: `game_paths = [` then the paths, each in double
//! quotes with `"` and `\` backslash-escaped, separated by `, `, then `]`
//! and a newline. Reading is strict: a text that does not have exactly this
//! shape is rejected, and the program reports it rather than guessing.
//!
//! Writing and then reading gives back the same ordered list, whatever the
//! paths hold: [`lemma_config_round_trip`] states this for every list.

use vstd::prelude::*;
use vstd::string::*;

use crate::config::Config;

verus! {

/// A path with `"` and `\` backslash-escaped.
pub open spec fn esc(s: Seq<char>) -> Seq<char>
    decreases s.len(),
{
    if s.len() == 0 {
        Seq::empty()
    } else if s[0] == '"' || s[0] == '\\' {
        seq!['\\', s[0]] + esc(s.skip(1))
    } else {
        seq![s[0]] + esc(s.skip(1))
    }
}

/// The quoted items of the list, separated by `, `.
pub open spec fn items_text(l: Seq<Seq<char>>) -> Seq<char>
    decreases l.len(),
{
    if l.len() == 0 {
        Seq::empty()
    } else if l.len() == 1 {
        seq!['"'] + esc(l[0]) + seq!['"']
    } else {
        seq!['"'] + esc(l[0]) + seq!['"'] + seq![',', ' '] + items_text(l.skip(1))
    }
}

/// The persisted text of a managed-game list.
pub open spec fn spec_encode(l: Seq<Seq<char>>) -> Seq<char> {
    "game_paths = ["@ + items_text(l) + seq![']', '\n']
}

/// Reads one quoted string from the front of `t`, which starts right after
/// the opening quote: the unescaped content and what follows the closing
/// quote. Only `\"` and `\\` escapes are accepted.
pub open spec fn parse_string_body(t: Seq<char>) -> Option<(Seq<char>, Seq<char>)>
    decreases t.len(),
{
    if t.len() == 0 {
        None
    } else if t[0] == '"' {
        Some((Seq::empty(), t.skip(1)))
    } else if t[0] == '\\' {
        if t.len() >= 2 && (t[1] == '"' || t[1] == '\\') {
            match parse_string_body(t.skip(2)) {
                Some(p) => Some((seq![t[1]] + p.0, p.1)),
                None => None,
            }
        } else {
            None
        }
    } else {
        match parse_string_body(t.skip(1)) {
            Some(p) => Some((seq![t[0]] + p.0, p.1)),
            None => None,
        }
    }
}

/// Reading a string consumes at least its closing quote.
pub proof fn lemma_parse_string_body_shrinks(t: Seq<char>)
    ensures
        parse_string_body(t) matches Some(p) ==> p.1.len() < t.len(),
    decreases t.len(),
{
    if t.len() == 0 {
    } else if t[0] == '"' {
    } else if t[0] == '\\' {
        if t.len() >= 2 && (t[1] == '"' || t[1] == '\\') {
            lemma_parse_string_body_shrinks(t.skip(2));
        }
    } else {
        lemma_parse_string_body_shrinks(t.skip(1));
    }
}

/// Reads the items following an item's opening quote: the remaining list
/// and what follows the closing bracket.
pub open spec fn parse_more(t: Seq<char>) -> Option<(Seq<Seq<char>>, Seq<char>)>
    decreases t.len(),
    via parse_more_dec
{
    match parse_string_body(t) {
        None => None,
        Some(p) => {
            let rest = p.1;
            if rest.len() > 0 && rest[0] == ']' {
                Some((seq![p.0], rest.skip(1)))
            } else if rest.len() >= 3 && rest[0] == ',' && rest[1] == ' ' && rest[2] == '"' {
                match parse_more(rest.skip(3)) {
                    Some(q) => Some((seq![p.0] + q.0, q.1)),
                    None => None,
                }
            } else {
                None
            }
        },
    }
}

#[via_fn]
proof fn parse_more_dec(t: Seq<char>) {
    lemma_parse_string_body_shrinks(t);
}

/// Reads the list following the opening bracket: the list and what follows
/// the closing bracket.
pub open spec fn parse_list(t: Seq<char>) -> Option<(Seq<Seq<char>>, Seq<char>)> {
    if t.len() > 0 && t[0] == ']' {
        Some((Seq::empty(), t.skip(1)))
    } else if t.len() > 0 && t[0] == '"' {
        parse_more(t.skip(1))
    } else {
        None
    }
}

/// What the whole record text holds: the ordered list of paths, or nothing
/// when the text does not have exactly the persisted shape.
pub open spec fn spec_parse(text: Seq<char>) -> Option<Seq<Seq<char>>> {
    let p = "game_paths = ["@;
    if text.len() >= p.len() && text.take(p.len() as int) == p {
        match parse_list(text.skip(p.len() as int)) {
            Some(q) => if q.1 =~= Seq::<char>::empty() || q.1 =~= seq!['\n'] {
                Some(q.0)
            } else {
                None
            },
            None => None,
        }
    } else {
        None
    }
}

/// Reading a quoted-and-escaped string gives back the string: for any path
/// and any following text, the escape is undone exactly.
pub proof fn lemma_string_round_trip(s: Seq<char>, rest: Seq<char>)
    ensures
        parse_string_body(esc(s) + seq!['"'] + rest) == Some((s, rest)),
    decreases s.len(),
{
    let t = esc(s) + seq!['"'] + rest;
    if s.len() == 0 {
        assert(t[0] == '"');
        assert(t.skip(1) =~= rest);
    } else {
        lemma_string_round_trip(s.skip(1), rest);
        if s[0] == '"' || s[0] == '\\' {
            assert(t[0] == '\\');
            assert(t[1] == s[0]);
            assert(t.len() >= 2);
            assert(t.skip(2) =~= esc(s.skip(1)) + seq!['"'] + rest);
            assert(seq![t[1]] + s.skip(1) =~= s);
        } else {
            assert(t[0] == s[0]);
            assert(t[0] != '"' && t[0] != '\\');
            assert(t.skip(1) =~= esc(s.skip(1)) + seq!['"'] + rest);
            assert(seq![t[0]] + s.skip(1) =~= s);
        }
    }
}

/// Reading the items of an encoded non-empty list gives back the list: the
/// text after the first item's opening quote parses to exactly the list.
pub proof fn lemma_items_round_trip(l: Seq<Seq<char>>, rest: Seq<char>)
    requires
        l.len() > 0,
    ensures
        parse_more(items_text(l).skip(1) + seq![']'] + rest) == Some((l, rest)),
    decreases l.len(),
{
    let t = items_text(l).skip(1) + seq![']'] + rest;
    if l.len() == 1 {
        assert(items_text(l) =~= seq!['"'] + esc(l[0]) + seq!['"']);
        assert(t =~= esc(l[0]) + seq!['"'] + (seq![']'] + rest));
        lemma_string_round_trip(l[0], seq![']'] + rest);
        let p = parse_string_body(t);
        assert(p == Some((l[0], seq![']'] + rest)));
        assert((seq![']'] + rest)[0] == ']');
        assert((seq![']'] + rest).skip(1) =~= rest);
        assert(seq![l[0]] =~= l);
    } else {
        let tail = l.skip(1);
        assert(items_text(l) =~= seq!['"'] + esc(l[0]) + seq!['"'] + seq![',', ' ']
            + items_text(tail));
        let after = seq![',', ' '] + items_text(tail) + seq![']'] + rest;
        assert(t =~= esc(l[0]) + seq!['"'] + after);
        lemma_string_round_trip(l[0], after);
        assert(after.len() >= 3);
        assert(after[0] == ',');
        assert(after[1] == ' ');
        assert(items_text(tail)[0] == '"');
        assert(after[2] == '"');
        lemma_items_round_trip(tail, rest);
        assert(after.skip(3) =~= items_text(tail).skip(1) + seq![']'] + rest);
        assert(seq![l[0]] + tail =~= l);
    }
}

/// Splitting the item text at an item boundary.
proof fn lemma_items_split(l: Seq<Seq<char>>, i: int)
    requires
        0 < i < l.len(),
    ensures
        items_text(l) == items_text(l.take(i)) + seq![',', ' '] + items_text(l.skip(i)),
    decreases i,
{
    if i == 1 {
        assert(l.take(1) =~= seq![l[0]]);
        assert(items_text(l.take(1)) =~= seq!['"'] + esc(l[0]) + seq!['"']);
        assert(items_text(l) =~= items_text(l.take(1)) + seq![',', ' '] + items_text(l.skip(1)));
    } else {
        lemma_items_split(l.skip(1), i - 1);
        assert(l.skip(1).take(i - 1) =~= l.take(i).skip(1));
        assert(l.skip(1).skip(i - 1) =~= l.skip(i));
        assert(l.take(i)[0] == l[0]);
        assert(l.take(i).len() == i);
        assert(items_text(l.take(i)) == seq!['"'] + esc(l.take(i)[0]) + seq!['"'] + seq![',', ' ']
            + items_text(l.take(i).skip(1)));
        assert(items_text(l) =~= items_text(l.take(i)) + seq![',', ' '] + items_text(l.skip(i)));
    }
}

/// Appends `s` with `"` and `\` backslash-escaped.
fn append_escaped(out: &mut String, s: &str)
    ensures
        final(out)@ == old(out)@ + esc(s@),
{
    proof {
        reveal_strlit("\\");
    }
    let n = s.unicode_len();
    let mut i: usize = 0;
    proof {
        assert(s@.skip(0) =~= s@);
        assert(old(out)@ + esc(s@) =~= out@ + esc(s@.skip(0)));
    }
    while i < n
        invariant
            n == s@.len(),
            0 <= i <= n,
            old(out)@ + esc(s@) == out@ + esc(s@.skip(i as int)),
        decreases n - i,
    {
        let ghost rest = s@.skip(i as int);
        proof {
            assert(rest[0] == s@[i as int]);
            assert(rest.skip(1) =~= s@.skip(i + 1));
        }
        let c = s.get_char(i);
        let piece = s.substring_char(i, i + 1);
        let ghost out_pre = out@;
        proof {
            assert(piece@ =~= seq![s@[i as int]]);
        }
        if c == '"' || c == '\\' {
            out.append("\\");
            proof {
                reveal_strlit("\\");
                assert("\\"@ =~= seq!['\\']);
            }
            out.append(piece);
            proof {
                assert(esc(rest) == seq!['\\', rest[0]] + esc(rest.skip(1)));
                assert(out@ =~= out_pre + seq!['\\', rest[0]]);
                assert(out_pre + esc(rest) =~= out@ + esc(rest.skip(1)));
                assert(old(out)@ + esc(s@) == out@ + esc(s@.skip(i + 1)));
            }
        } else {
            out.append(piece);
            proof {
                assert(esc(rest) == seq![rest[0]] + esc(rest.skip(1)));
                assert(out@ =~= out_pre + seq![rest[0]]);
                assert(out_pre + esc(rest) =~= out@ + esc(rest.skip(1)));
                assert(old(out)@ + esc(s@) == out@ + esc(s@.skip(i + 1)));
            }
        }
        i = i + 1;
    }
    proof {
        assert(esc(s@.skip(n as int)) =~= Seq::<char>::empty());
        assert(out@ + esc(s@.skip(n as int)) =~= out@);
    }
}

/// Writes the managed-game list in its persisted form.
pub fn encode_config(c: &Config) -> (r: String)
    ensures
        r@ == spec_encode(c.paths()),
{
    let ghost l = c.paths();
    let n = c.game_paths.len();
    let mut out = String::from_str("game_paths = [");
    let mut i: usize = 0;
    proof {
        assert(l.take(0) =~= Seq::<Seq<char>>::empty());
        assert(out@ + items_text(l.take(0)) =~= out@);
    }
    while i < n
        invariant
            n == c.game_paths.len(),
            l == c.paths(),
            0 <= i <= n,
            out@ == "game_paths = ["@ + items_text(l.take(i as int)),
        decreases n - i,
    {
        proof {
            assert(l[i as int] == c.game_paths@[i as int]@);
        }
        if i > 0 {
            out.append(", ");
            proof {
                reveal_strlit(", ");
                assert(", "@ =~= seq![',', ' ']);
            }
        }
        out.append("\"");
        append_escaped(&mut out, c.game_paths[i].as_str());
        out.append("\"");
        proof {
            reveal_strlit("\"");
            assert("\""@ =~= seq!['"']);
            if i == 0 {
                assert(l.take(1) =~= seq![l[0]]);
                assert(items_text(l.take(1)) =~= seq!['"'] + esc(l[0]) + seq!['"']);
                assert(out@ =~= "game_paths = ["@ + items_text(l.take(1)));
            } else {
                lemma_items_split(l.take(i + 1), i as int);
                assert(l.take(i + 1).take(i as int) =~= l.take(i as int));
                assert(l.take(i + 1).skip(i as int) =~= seq![l[i as int]]);
                assert(items_text(seq![l[i as int]]) =~= seq!['"'] + esc(l[i as int])
                    + seq!['"']);
                assert(out@ =~= "game_paths = ["@ + items_text(l.take(i + 1)));
            }
        }
        i = i + 1;
    }
    out.append("]\n");
    proof {
        reveal_strlit("]\n");
        assert("]\n"@ =~= seq![']', '\n']);
        assert(l.take(n as int) =~= l);
        assert(out@ =~= spec_encode(l));
    }
    out
}

/// Reads one quoted string starting right after its opening quote at `i`:
/// the content and the position after the closing quote.
fn parse_string_at(text: &str, i: usize) -> (r: Option<(String, usize)>)
    requires
        i <= text@.len(),
    ensures
        match r {
            Some(p) => i <= p.1 <= text@.len() && parse_string_body(text@.skip(i as int))
                == Some((p.0@, text@.skip(p.1 as int))),
            None => parse_string_body(text@.skip(i as int)) is None,
        },
    decreases text@.len() - i,
{
    let n = text.unicode_len();
    let ghost rest = text@.skip(i as int);
    if i >= n {
        proof {
            assert(rest.len() == 0);
        }
        return None;
    }
    proof {
        assert(rest[0] == text@[i as int]);
        assert(rest.skip(1) =~= text@.skip(i + 1));
    }
    let c = text.get_char(i);
    if c == '"' {
        Some((String::new(), i + 1))
    } else if c == '\\' {
        if i + 1 >= n {
            proof {
                assert(rest.len() < 2);
            }
            return None;
        }
        proof {
            assert(rest[1] == text@[i + 1]);
            assert(rest.skip(2) =~= text@.skip(i + 2));
        }
        let c2 = text.get_char(i + 1);
        if c2 == '"' || c2 == '\\' {
            match parse_string_at(text, i + 2) {
                Some(p) => {
                    let mut s = text.substring_char(i + 1, i + 2).to_owned();
                    proof {
                        assert(s@ =~= seq![text@[i + 1]]);
                    }
                    s.append(p.0.as_str());
                    Some((s, p.1))
                },
                None => None,
            }
        } else {
            None
        }
    } else {
        match parse_string_at(text, i + 1) {
            Some(p) => {
                let mut s = text.substring_char(i, i + 1).to_owned();
                proof {
                    assert(s@ =~= seq![text@[i as int]]);
                }
                s.append(p.0.as_str());
                Some((s, p.1))
            },
            None => None,
        }
    }
}

/// Reads the items following an item's opening quote at `i`: the remaining
/// paths and the position after the closing bracket.
fn parse_more_at(text: &str, i: usize) -> (r: Option<(Vec<String>, usize)>)
    requires
        i <= text@.len(),
    ensures
        match r {
            Some(p) => p.1 <= text@.len() && parse_more(text@.skip(i as int)) == Some(
                (p.0.deep_view(), text@.skip(p.1 as int)),
            ),
            None => parse_more(text@.skip(i as int)) is None,
        },
    decreases text@.len() - i,
{
    let n = text.unicode_len();
    let first = match parse_string_at(text, i) {
        Some(p) => p,
        None => {
            return None;
        },
    };
    let s = first.0;
    let j = first.1;
    let ghost after = text@.skip(j as int);
    if j < n && text.get_char(j) == ']' {
        proof {
            assert(after[0] == text@[j as int]);
            assert(after.skip(1) =~= text@.skip(j + 1));
        }
        let mut v: Vec<String> = Vec::new();
        v.push(s);
        proof {
            assert(v.deep_view() =~= seq![v@[0]@]);
        }
        Some((v, j + 1))
    } else if j < n && n - j >= 3 && text.get_char(j) == ',' && text.get_char(j + 1) == ' '
        && text.get_char(j + 2) == '"' {
        proof {
            assert(after.len() >= 3);
            assert(after[0] == text@[j as int]);
            assert(after[1] == text@[j + 1]);
            assert(after[2] == text@[j + 2]);
            assert(after.skip(3) =~= text@.skip(j + 3));
        }
        match parse_more_at(text, j + 3) {
            Some(p) => {
                let mut v = p.0;
                let ghost tail_view = v.deep_view();
                v.insert(0, s);
                proof {
                    assert(v.deep_view() =~= seq![v@[0]@] + tail_view);
                }
                Some((v, p.1))
            },
            None => None,
        }
    } else {
        proof {
            if after.len() > 0 && after[0] == ']' {
                assert(text@[j as int] == ']');
            }
            if after.len() >= 3 && after[0] == ',' && after[1] == ' ' && after[2] == '"' {
                assert(text@[j as int] == ',');
                assert(text@[j + 1] == ' ');
                assert(text@[j + 2] == '"');
            }
        }
        None
    }
}

/// Whether everything from `j` on is an empty tail or one newline.
fn tail_ok(text: &str, j: usize) -> (r: bool)
    requires
        j <= text@.len(),
    ensures
        r == (text@.skip(j as int) == Seq::<char>::empty() || text@.skip(j as int) == seq!['\n']),
{
    let n = text.unicode_len();
    if j == n {
        proof {
            assert(text@.skip(j as int) =~= Seq::<char>::empty());
        }
        true
    } else if j + 1 == n && text.get_char(j) == '\n' {
        proof {
            assert(text@.skip(j as int) =~= seq!['\n']);
        }
        true
    } else {
        proof {
            let rest = text@.skip(j as int);
            assert(rest.len() > 0);
            assert(rest[0] == text@[j as int]);
            if rest.len() == 1 && text@[j as int] == '\n' {
                assert(rest =~= seq!['\n']);
            }
        }
        false
    }
}

/// Reads the persisted record back: the managed-game list, or nothing when
/// the text does not have exactly the persisted shape.
pub fn parse_config(text: &str) -> (r: Option<Config>)
    ensures
        match r {
            Some(c) => spec_parse(text@) == Some(c.paths()),
            None => spec_parse(text@) is None,
        },
{
    proof {
        reveal_strlit("game_paths = [");
    }
    let prefix = "game_paths = [";
    let plen = prefix.unicode_len();
    let n = text.unicode_len();
    if n < plen {
        return None;
    }
    if !crate::collections::matches_at(text, 0, prefix) {
        proof {
            assert(text@.take(plen as int) =~= text@.subrange(0, plen as int));
        }
        return None;
    }
    proof {
        assert(text@.take(plen as int) =~= text@.subrange(0, plen as int));
    }
    let ghost body = text@.skip(plen as int);
    if plen < n && text.get_char(plen) == ']' {
        proof {
            assert(body[0] == text@[plen as int]);
            assert(body.skip(1) =~= text@.skip(plen + 1));
        }
        if tail_ok(text, plen + 1) {
            let c = Config { game_paths: Vec::new() };
            proof {
                assert(c.paths() =~= Seq::<Seq<char>>::empty());
            }
            Some(c)
        } else {
            None
        }
    } else if plen < n && text.get_char(plen) == '"' {
        proof {
            assert(body[0] == text@[plen as int]);
            assert(body.skip(1) =~= text@.skip(plen + 1));
        }
        match parse_more_at(text, plen + 1) {
            Some(p) => {
                if tail_ok(text, p.1) {
                    let c = Config { game_paths: p.0 };
                    Some(c)
                } else {
                    None
                }
            },
            None => None,
        }
    } else {
        proof {
            if body.len() > 0 {
                assert(body[0] == text@[plen as int]);
            }
        }
        None
    }
}

/// Writing the managed-game list and reading it back yields the same
/// ordered list of paths, for every list.
pub proof fn lemma_config_round_trip(l: Seq<Seq<char>>)
    ensures
        spec_parse(spec_encode(l)) == Some(l),
{
    let p = "game_paths = ["@;
    let text = spec_encode(l);
    assert(text.take(p.len() as int) =~= p);
    let body = text.skip(p.len() as int);
    assert(body =~= items_text(l) + seq![']'] + seq!['\n']);
    if l.len() == 0 {
        assert(items_text(l).len() == 0);
        assert(body[0] == ']');
        assert(body.skip(1) =~= seq!['\n']);
    } else {
        assert(items_text(l)[0] == '"');
        assert(body[0] == '"');
        lemma_items_round_trip(l, seq!['\n']);
        assert(body.skip(1) =~= items_text(l).skip(1) + seq![']'] + seq!['\n']);
    }
}

} // verus!
