use vstd::prelude::*;

use crate::text::{contains_text, occurs_at, replace_all, replace_str};

verus! {

/// The pattern of a trailing comma before the closing bracket of the
/// container list, as the kernel module writes the list.
pub open spec fn trailing_comma_pattern() -> Seq<char> {
    seq![',', '\n', ' ', ' ', ']']
}

/// The closing bracket of the container list without the comma before it.
pub open spec fn closing_bracket() -> Seq<char> {
    seq!['\n', ' ', ' ', ']']
}

/// A trailing comma doubled: two commas before the closing bracket.
pub open spec fn doubled_trailing_comma() -> Seq<char> {
    seq![',', ',', '\n', ' ', ' ', ']']
}

/// The text with its trailing commas removed.
pub open spec fn stripped(s: Seq<char>) -> Seq<char> {
    replace_all(s, trailing_comma_pattern(), closing_bracket())
}

/// How the cleanup treats the head of a non-empty text: a trailing comma there
/// becomes the bare bracket, any other first character is kept.
proof fn lemma_stripped_head(u: Seq<char>)
    requires
        u.len() > 0,
    ensures
        occurs_at(u, trailing_comma_pattern(), 0) ==> stripped(u) == closing_bracket() + stripped(
            u.subrange(5, u.len() as int),
        ),
        !occurs_at(u, trailing_comma_pattern(), 0) ==> stripped(u) == seq![u[0]] + stripped(u.drop_first()),
{
    let p = trailing_comma_pattern();
    if u.len() < 5 {
        assert(stripped(u.drop_first()) == u.drop_first());
        assert(u == seq![u[0]] + u.drop_first());
    } else {
        assert(p.len() == 5);
        assert(u.drop_first() == u.subrange(1, u.len() as int));
    }
}

/// The cleaned text begins with the bare bracket only where the text began
/// with a trailing comma or with the bare bracket.
proof fn lemma_stripped_starts_with_bracket(t: Seq<char>)
    requires
        occurs_at(stripped(t), closing_bracket(), 0),
    ensures
        occurs_at(t, trailing_comma_pattern(), 0) || occurs_at(t, closing_bracket(), 0),
{
    let p = trailing_comma_pattern();
    let q = closing_bracket();
    if !occurs_at(t, p, 0) {
        let r0 = stripped(t);
        assert(r0.subrange(0, 4) == q);
        assert(r0[0] == '\n' && r0[1] == ' ' && r0[2] == ' ' && r0[3] == ']');
        if t.len() == 0 {
            assert(stripped(t) == t);
        }
        lemma_stripped_head(t);
        let t1 = t.drop_first();
        let r1 = stripped(t1);
        assert(r1[0] == ' ' && r1[1] == ' ' && r1[2] == ']');
        if t1.len() == 0 {
            assert(r1 == t1);
        }
        lemma_stripped_head(t1);
        if occurs_at(t1, p, 0) {
            assert(r1[0] == q[0]);
        }
        let t2 = t1.drop_first();
        let r2 = stripped(t2);
        assert(r2[0] == ' ' && r2[1] == ']');
        if t2.len() == 0 {
            assert(r2 == t2);
        }
        lemma_stripped_head(t2);
        if occurs_at(t2, p, 0) {
            assert(r2[0] == q[0]);
        }
        let t3 = t2.drop_first();
        let r3 = stripped(t3);
        assert(r3[0] == ']');
        if t3.len() == 0 {
            assert(r3 == t3);
        }
        lemma_stripped_head(t3);
        if occurs_at(t3, p, 0) {
            assert(r3[0] == q[0]);
        }
        assert(t[0] == '\n' && t1[0] == ' ' && t2[0] == ' ' && t3[0] == ']');
        assert(t.subrange(0, 4) =~= q);
    }
}

/// A text without a doubled trailing comma keeps none in any of its suffixes.
proof fn lemma_no_doubled_in_suffix(s: Seq<char>, k: int)
    requires
        0 <= k <= s.len(),
        !contains_text(s, doubled_trailing_comma()),
    ensures
        !contains_text(s.subrange(k, s.len() as int), doubled_trailing_comma()),
{
    let d = doubled_trailing_comma();
    let t = s.subrange(k, s.len() as int);
    if contains_text(t, d) {
        let i: int = choose|i: int| occurs_at(t, d, i);
        assert(t.subrange(i, i + d.len()) =~= s.subrange(k + i, k + i + d.len()));
        assert(occurs_at(s, d, k + i));
    }
}

/// The cleanup leaves no trailing comma behind, provided no trailing comma is
/// doubled: a text in which `,,` never stands before the closing bracket comes
/// out without any comma before it. (On `,,\n  ]` the cleanup removes only
/// one of the two commas.)
pub proof fn lemma_strip_leaves_no_trailing_comma(s: Seq<char>)
    requires
        !contains_text(s, seq![',', ',', '\n', ' ', ' ', ']']),
    ensures
        !contains_text(stripped(s), seq![',', '\n', ' ', ' ', ']']),
    decreases s.len(),
{
    let p = trailing_comma_pattern();
    let q = closing_bracket();
    let d = doubled_trailing_comma();
    let r = stripped(s);
    if s.len() < 5 {
        assert(r == s);
    } else if occurs_at(s, p, 0) {
        let rest = s.subrange(5, s.len() as int);
        lemma_no_doubled_in_suffix(s, 5);
        lemma_strip_leaves_no_trailing_comma(rest);
        lemma_stripped_head(s);
        let x = stripped(rest);
        assert(r == q + x);
        if contains_text(r, p) {
            let i: int = choose|i: int| occurs_at(r, p, i);
            if i < 4 {
                assert(r[i] == p[0]);
                assert(r[i] == q[i]);
            } else {
                assert(r.subrange(i, i + 5) =~= x.subrange(i - 4, i - 4 + 5));
                assert(occurs_at(x, p, i - 4));
            }
        }
    } else {
        let rest = s.drop_first();
        assert(rest == s.subrange(1, s.len() as int));
        lemma_no_doubled_in_suffix(s, 1);
        lemma_strip_leaves_no_trailing_comma(rest);
        lemma_stripped_head(s);
        let x = stripped(rest);
        assert(r == seq![s[0]] + x);
        if contains_text(r, p) {
            let i: int = choose|i: int| occurs_at(r, p, i);
            if i >= 1 {
                assert(r.subrange(i, i + 5) =~= x.subrange(i - 1, i - 1 + 5));
                assert(occurs_at(x, p, i - 1));
            } else {
                assert(r.subrange(0, 5) == p);
                assert(s[0] == r[0]);
                assert(r[0] == r.subrange(0, 5)[0]);
                assert(s[0] == ',');
                assert(x.subrange(0, 4) =~= r.subrange(1, 5));
                assert(r.subrange(1, 5) =~= q);
                assert(occurs_at(x, q, 0));
                lemma_stripped_starts_with_bracket(rest);
                if occurs_at(rest, q, 0) {
                    assert(rest.subrange(0, 4) == q);
                    assert(s.subrange(0, 5) =~= seq![s[0]] + rest.subrange(0, 4));
                    assert(s.subrange(0, 5) =~= p);
                    assert(occurs_at(s, p, 0));
                } else {
                    assert(rest.subrange(0, 5) == p);
                    assert(s.subrange(0, 6) =~= seq![s[0]] + rest.subrange(0, 5));
                    assert(s.subrange(0, 6) =~= d);
                    assert(occurs_at(s, d, 0));
                }
            }
        }
    }
}

/// A text without a trailing comma before the closing bracket is left as it
/// is.
pub proof fn lemma_strip_keeps_clean_text(s: Seq<char>)
    requires
        !contains_text(s, seq![',', '\n', ' ', ' ', ']']),
    ensures
        stripped(s) == s,
    decreases s.len(),
{
    let p = trailing_comma_pattern();
    if s.len() > 0 {
        lemma_no_trailing_in_suffix(s);
        lemma_strip_keeps_clean_text(s.drop_first());
        lemma_stripped_head(s);
        if occurs_at(s, p, 0) {
            assert(occurs_at(s, seq![',', '\n', ' ', ' ', ']'], 0));
        }
        assert(s =~= seq![s[0]] + s.drop_first());
    }
}

/// A suffix of a text without a trailing comma has none either.
proof fn lemma_no_trailing_in_suffix(s: Seq<char>)
    requires
        s.len() > 0,
        !contains_text(s, seq![',', '\n', ' ', ' ', ']']),
    ensures
        !contains_text(s.drop_first(), seq![',', '\n', ' ', ' ', ']']),
{
    let p = seq![',', '\n', ' ', ' ', ']'];
    let t = s.drop_first();
    if contains_text(t, p) {
        let i: int = choose|i: int| occurs_at(t, p, i);
        assert(t.subrange(i, i + 5) =~= s.subrange(i + 1, i + 1 + 5));
        assert(occurs_at(s, p, i + 1));
    }
}

/// The cleanup removes commas and nothing else: leaving the commas out, the
/// cleaned text and the text are the same.
pub proof fn lemma_strip_removes_only_commas(s: Seq<char>)
    ensures
        stripped(s).filter(|c: char| c != ',') == s.filter(|c: char| c != ','),
    decreases s.len(),
{
    let pred = |c: char| c != ',';
    let p = trailing_comma_pattern();
    let q = closing_bracket();
    if s.len() == 0 {
        assert(stripped(s) == s);
    } else {
        lemma_stripped_head(s);
        if occurs_at(s, p, 0) {
            let rest = s.subrange(5, s.len() as int);
            lemma_strip_removes_only_commas(rest);
            assert(s =~= p + rest);
            Seq::filter_distributes_over_add(p, rest, pred);
            Seq::filter_distributes_over_add(q, stripped(rest), pred);
            reveal_with_fuel(Seq::filter, 6);
            assert(p.drop_last() =~= seq![',', '\n', ' ', ' ']);
            assert(p.drop_last().drop_last() =~= seq![',', '\n', ' ']);
            assert(p.drop_last().drop_last().drop_last() =~= seq![',', '\n']);
            assert(p.drop_last().drop_last().drop_last().drop_last() =~= seq![',']);
            assert(seq![','].drop_last() =~= Seq::<char>::empty());
            assert(q.drop_last() =~= seq!['\n', ' ', ' ']);
            assert(q.drop_last().drop_last() =~= seq!['\n', ' ']);
            assert(q.drop_last().drop_last().drop_last() =~= seq!['\n']);
            assert(seq!['\n'].drop_last() =~= Seq::<char>::empty());
            assert(p.filter(pred) =~= q);
            assert(q.filter(pred) =~= q);
        } else {
            let rest = s.drop_first();
            lemma_strip_removes_only_commas(rest);
            let head = seq![s[0]];
            assert(s =~= head + rest);
            Seq::filter_distributes_over_add(head, rest, pred);
            Seq::filter_distributes_over_add(head, stripped(rest), pred);
        }
    }
}

/// The system information text with the commas that stand right before the
/// closing bracket of the container list removed, so that it parses as JSON.
pub fn strip_trailing_commas(contents: &str) -> (cleaned: String)
    ensures
        cleaned@ == stripped(contents@),
{
    proof {
        reveal_strlit(",\n  ]");
        reveal_strlit("\n  ]");
    }
    let cleaned = replace_str(contents, ",\n  ]", "\n  ]");
    assert(",\n  ]"@ == trailing_comma_pattern());
    assert("\n  ]"@ == closing_bracket());
    cleaned
}

} // verus!
