//! The target dialect: fixed rewrites of the generic structured text.
use vstd::prelude::*;
use crate::text::{chars_of, has_prefix, string_of};

verus! {

/// `s` with each occurrence of `pat`, found left to right without overlap, replaced by `rep`.
pub open spec fn replace_all(s: Seq<char>, pat: Seq<char>, rep: Seq<char>) -> Seq<char>
    decreases s.len(),
{
    if s.len() == 0 {
        s
    } else if pat.len() > 0 && has_prefix(s, pat) {
        rep + replace_all(s.subrange(pat.len() as int, s.len() as int), pat, rep)
    } else {
        seq![s[0]] + replace_all(s.drop_first(), pat, rep)
    }
}

pub open spec fn occurs_at(s: Seq<char>, w: Seq<char>, i: int) -> bool {
    0 <= i && i + w.len() <= s.len() && s.subrange(i, i + w.len()) == w
}

pub open spec fn occurs_in(s: Seq<char>, w: Seq<char>) -> bool {
    exists|i: int| occurs_at(s, w, i)
}

/// The four rewrites that turn the generic text into the dialect, in order.
pub open spec fn dialect_spec(s: Seq<char>) -> Seq<char> {
    let s1 = replace_all(s, "[races.info]"@, "[[RACE_PARAMS]]\n[INFO]"@);
    let s2 = replace_all(s1, "[[days.points]]"@, "[[races.points]]"@);
    let s3 = replace_all(s2, " = "@, "="@);
    replace_all(s3, "[[point_types.types]]"@, "[[races.types]]"@)
}

fn matches_at(s: &Vec<char>, i: usize, pat: &Vec<char>) -> (r: bool)
    requires
        i <= s@.len(),
    ensures
        r == has_prefix(s@.subrange(i as int, s@.len() as int), pat@),
{
    let ghost rest = s@.subrange(i as int, s@.len() as int);
    if pat.len() > s.len() - i {
        return false;
    }
    let n = s.len();
    let mut k: usize = 0;
    while k < pat.len()
        invariant
            n == s@.len(),
            rest == s@.subrange(i as int, s@.len() as int),
            i <= s@.len(),
            rest.len() == s@.len() - i,
            pat@.len() <= rest.len(),
            k <= pat@.len(),
            rest.subrange(0, k as int) == pat@.subrange(0, k as int),
        decreases pat@.len() - k,
    {
        assert(rest[k as int] == s@[i + k]);
        if s[i + k] != pat[k] {
            assert(rest.subrange(0, pat@.len() as int)[k as int] != pat@[k as int]);
            return false;
        }
        assert(rest.subrange(0, k + 1) == rest.subrange(0, k as int).push(rest[k as int]));
        assert(pat@.subrange(0, k + 1) == pat@.subrange(0, k as int).push(pat@[k as int]));
        k = k + 1;
    }
    assert(pat@.subrange(0, k as int) == pat@);
    true
}

/// Replaces every occurrence of `pat` in `s` by `rep`, left to right.
pub fn replace_chars(s: &Vec<char>, pat: &Vec<char>, rep: &Vec<char>) -> (r: Vec<char>)
    requires
        pat@.len() > 0,
    ensures
        r@ == replace_all(s@, pat@, rep@),
{
    let mut out: Vec<char> = Vec::new();
    let mut i: usize = 0;
    assert(s@.subrange(0, s@.len() as int) == s@);
    while i < s.len()
        invariant
            pat@.len() > 0,
            i <= s@.len(),
            replace_all(s@, pat@, rep@) == out@ + replace_all(s@.subrange(i as int, s@.len() as int), pat@, rep@),
        decreases s@.len() - i,
    {
        let ghost rest = s@.subrange(i as int, s@.len() as int);
        let ghost before = out@;
        if matches_at(s, i, pat) {
            let mut k: usize = 0;
            while k < rep.len()
                invariant
                    k <= rep@.len(),
                    out@ == before + rep@.subrange(0, k as int),
                decreases rep@.len() - k,
            {
                out.push(rep[k]);
                assert(rep@.subrange(0, k + 1) == rep@.subrange(0, k as int).push(rep@[k as int]));
                k = k + 1;
            }
            assert(rep@.subrange(0, k as int) == rep@);
            assert(rest.subrange(pat@.len() as int, rest.len() as int) == s@.subrange(i + pat@.len(), s@.len() as int));
            i = i + pat.len();
            assert(replace_all(rest, pat@, rep@) == rep@ + replace_all(s@.subrange(i as int, s@.len() as int), pat@, rep@));
            assert(before + (rep@ + replace_all(s@.subrange(i as int, s@.len() as int), pat@, rep@)) =~= out@
                + replace_all(s@.subrange(i as int, s@.len() as int), pat@, rep@));
        } else {
            out.push(s[i]);
            assert(rest.drop_first() == s@.subrange(i + 1, s@.len() as int));
            i = i + 1;
            assert(before + (seq![rest[0]] + replace_all(s@.subrange(i as int, s@.len() as int), pat@, rep@)) =~= out@
                + replace_all(s@.subrange(i as int, s@.len() as int), pat@, rep@));
        }
    }
    assert(s@.subrange(i as int, s@.len() as int) =~= Seq::<char>::empty());
    assert(out@ + Seq::<char>::empty() =~= out@);
    out
}

/// Rewrites generic structured text into the dialect: the race-information header
/// becomes a race-parameters block with an info block, the day and type arrays are
/// renamed, and every ` = ` becomes `=`.
pub fn apply_dialect(text: &str) -> (r: String)
    ensures
        r@ == dialect_spec(text@),
{
    proof {
        reveal_strlit("[races.info]");
        reveal_strlit("[[days.points]]");
        reveal_strlit(" = ");
        reveal_strlit("[[point_types.types]]");
    }
    let s0 = chars_of(text);
    let s1 = replace_chars(&s0, &chars_of("[races.info]"), &chars_of("[[RACE_PARAMS]]\n[INFO]"));
    let s2 = replace_chars(&s1, &chars_of("[[days.points]]"), &chars_of("[[races.points]]"));
    let s3 = replace_chars(&s2, &chars_of(" = "), &chars_of("="));
    let s4 = replace_chars(&s3, &chars_of("[[point_types.types]]"), &chars_of("[[races.types]]"));
    string_of(s4.as_slice())
}

/// A window at the start of a rewritten text whose characters never begin `rep`
/// stood at the start of the text before the rewrite.
proof fn lemma_prefix_from_source(x: Seq<char>, pat: Seq<char>, rep: Seq<char>, w: Seq<char>)
    requires
        pat.len() > 0,
        rep.len() > 0,
        !w.contains(rep[0]),
        has_prefix(replace_all(x, pat, rep), w),
    ensures
        has_prefix(x, w),
    decreases w.len(),
{
    let t = replace_all(x, pat, rep);
    if w.len() == 0 {
        assert(x.subrange(0, 0) =~= w);
    } else {
        assert(x.len() > 0);
        if has_prefix(x, pat) {
            assert(t[0] == rep[0]);
            assert(t.subrange(0, w.len() as int)[0] == w[0]);
            assert(w.contains(w[0]));
        } else {
            let t1 = replace_all(x.drop_first(), pat, rep);
            assert(t == seq![x[0]] + t1);
            assert(t.subrange(0, w.len() as int)[0] == t[0]);
            assert(t1.subrange(0, w.len() - 1) =~= w.drop_first()) by {
                assert forall|k: int| 0 <= k < w.len() - 1 implies t1[k] == w.drop_first()[k] by {
                    assert(t[k + 1] == t1[k]);
                    assert(t.subrange(0, w.len() as int)[k + 1] == w[k + 1]);
                }
            }
            assert forall|c: char| w.drop_first().contains(c) implies w.contains(c) by {
                let k = choose|k: int| 0 <= k < w.drop_first().len() && w.drop_first()[k] == c;
                assert(w[k + 1] == c);
            }
            lemma_prefix_from_source(x.drop_first(), pat, rep, w.drop_first());
            assert(x.subrange(0, w.len() as int) =~= w) by {
                assert forall|k: int| 0 <= k < w.len() implies x[k] == w[k] by {
                    if k > 0 {
                        assert(x.drop_first().subrange(0, w.len() - 1)[k - 1] == w.drop_first()[k - 1]);
                    } else {
                        assert(t.subrange(0, w.len() as int)[0] == w[0]);
                    }
                }
            }
        }
    }
}

/// Rewriting with a replacement free of the window's first character, whose own first
/// character is not in the window, creates no occurrence of the window.
pub proof fn lemma_rewrite_keeps_absent(s: Seq<char>, pat: Seq<char>, rep: Seq<char>, w: Seq<char>)
    requires
        pat.len() > 0,
        rep.len() > 0,
        w.len() > 0,
        !w.contains(rep[0]),
        !rep.contains(w[0]),
        !occurs_in(s, w),
    ensures
        !occurs_in(replace_all(s, pat, rep), w),
    decreases s.len(),
{
    let t = replace_all(s, pat, rep);
    if occurs_in(t, w) {
        let j = choose|j: int| occurs_at(t, w, j);
        assert(t.subrange(j, j + w.len())[0] == w[0]);
        if s.len() == 0 {
        } else if has_prefix(s, pat) {
            let rest = s.subrange(pat.len() as int, s.len() as int);
            let t2 = replace_all(rest, pat, rep);
            assert(t == rep + t2);
            if j < rep.len() {
                assert(t[j] == rep[j]);
                assert(rep.contains(w[0]));
            } else {
                assert(!occurs_in(rest, w)) by {
                    if occurs_in(rest, w) {
                        let m = choose|m: int| occurs_at(rest, w, m);
                        assert(s.subrange(m + pat.len(), m + pat.len() + w.len()) =~= rest.subrange(m, m + w.len()));
                        assert(occurs_at(s, w, m + pat.len()));
                    }
                }
                lemma_rewrite_keeps_absent(rest, pat, rep, w);
                assert(t2.subrange(j - rep.len(), j - rep.len() + w.len()) =~= t.subrange(j, j + w.len()));
                assert(occurs_at(t2, w, j - rep.len()));
            }
        } else {
            let s1 = s.drop_first();
            let t1 = replace_all(s1, pat, rep);
            assert(t == seq![s[0]] + t1);
            if j == 0 {
                assert(has_prefix(t, w));
                lemma_prefix_from_source(s, pat, rep, w);
                assert(occurs_at(s, w, 0));
            } else {
                assert(!occurs_in(s1, w)) by {
                    if occurs_in(s1, w) {
                        let m = choose|m: int| occurs_at(s1, w, m);
                        assert(s.subrange(m + 1, m + 1 + w.len()) =~= s1.subrange(m, m + w.len()));
                        assert(occurs_at(s, w, m + 1));
                    }
                }
                lemma_rewrite_keeps_absent(s1, pat, rep, w);
                assert(t1.subrange(j - 1, j - 1 + w.len()) =~= t.subrange(j, j + w.len()));
                assert(occurs_at(t1, w, j - 1));
            }
        }
    }
}

/// The first character of a rewritten nonempty text.
proof fn lemma_first_char(x: Seq<char>, pat: Seq<char>, rep: Seq<char>)
    requires
        x.len() > 0,
        pat.len() > 0,
        rep.len() > 0,
    ensures
        replace_all(x, pat, rep).len() > 0,
        replace_all(x, pat, rep)[0] == if has_prefix(x, pat) { rep[0] } else { x[0] },
{
}

/// Compacting ` = ` to `=` leaves no ` = ` unless the text held `  =  `.
proof fn lemma_compact_leaves_none(s: Seq<char>)
    requires
        !occurs_in(s, "  =  "@),
    ensures
        !occurs_in(replace_all(s, " = "@, "="@), " = "@),
    decreases s.len(),
{
    reveal_strlit(" = ");
    reveal_strlit("=");
    reveal_strlit("  =  ");
    let pat = " = "@;
    let rep = "="@;
    let w = "  =  "@;
    let t = replace_all(s, pat, rep);
    if occurs_in(t, pat) {
        let j = choose|j: int| occurs_at(t, pat, j);
        let o = t.subrange(j, j + 3);
        assert(o[0] == ' ' && o[1] == '=' && o[2] == ' ');
        if s.len() == 0 {
        } else if has_prefix(s, pat) {
            let rest = s.subrange(3, s.len() as int);
            let t2 = replace_all(rest, pat, rep);
            assert(t == rep + t2);
            if j == 0 {
                assert(t[0] == '=');
            } else {
                assert(!occurs_in(rest, w)) by {
                    if occurs_in(rest, w) {
                        let m = choose|m: int| occurs_at(rest, w, m);
                        assert(s.subrange(m + 3, m + 8) =~= rest.subrange(m, m + 5));
                        assert(occurs_at(s, w, m + 3));
                    }
                }
                lemma_compact_leaves_none(rest);
                assert(t2.subrange(j - 1, j + 2) =~= o);
                assert(occurs_at(t2, pat, j - 1));
            }
        } else {
            let s1 = s.drop_first();
            let t1 = replace_all(s1, pat, rep);
            assert(t == seq![s[0]] + t1);
            if j == 0 {
                assert(t[0] == ' ' && t1[0] == '=' && t1[1] == ' ');
                assert(s[0] == ' ');
                assert(s1.len() > 0);
                lemma_first_char(s1, pat, rep);
                if has_prefix(s1, pat) {
                    let s4 = s1.subrange(3, s1.len() as int);
                    let t4 = replace_all(s4, pat, rep);
                    assert(t1 == rep + t4);
                    assert(t4[0] == ' ');
                    assert(s4.len() > 0);
                    lemma_first_char(s4, pat, rep);
                    assert(s4[0] == ' ');
                    assert(s1.subrange(0, 3)[0] == ' ' && s1.subrange(0, 3)[1] == '=' && s1.subrange(0, 3)[2] == ' ');
                    assert(s.subrange(0, 5) =~= w);
                    assert(occurs_at(s, w, 0));
                } else {
                    assert(s1[0] == '=');
                    let s2 = s1.drop_first();
                    let t2 = replace_all(s2, pat, rep);
                    assert(t1 == seq![s1[0]] + t2);
                    assert(t2[0] == ' ');
                    assert(s2.len() > 0);
                    lemma_first_char(s2, pat, rep);
                    assert(s2[0] == ' ');
                    assert(s.subrange(0, 3) =~= pat);
                }
            } else {
                assert(!occurs_in(s1, w)) by {
                    if occurs_in(s1, w) {
                        let m = choose|m: int| occurs_at(s1, w, m);
                        assert(s.subrange(m + 1, m + 6) =~= s1.subrange(m, m + 5));
                        assert(occurs_at(s, w, m + 1));
                    }
                }
                lemma_compact_leaves_none(s1);
                assert(t1.subrange(j - 1, j + 2) =~= o);
                assert(occurs_at(t1, pat, j - 1));
            }
        }
    }
}

/// After the rewrite into the dialect, no ` = ` is left, for every text that does not
/// hold two spaces, `=`, and two spaces in a row.
pub proof fn lemma_dialect_has_no_spaced_equals(s: Seq<char>)
    requires
        !occurs_in(s, "  =  "@),
    ensures
        !occurs_in(dialect_spec(s), " = "@),
{
    reveal_strlit("[races.info]");
    reveal_strlit("[[RACE_PARAMS]]\n[INFO]");
    reveal_strlit("[[days.points]]");
    reveal_strlit("[[races.points]]");
    reveal_strlit(" = ");
    reveal_strlit("  =  ");
    reveal_strlit("[[point_types.types]]");
    reveal_strlit("[[races.types]]");
    let w5 = "  =  "@;
    let w3 = " = "@;
    let r1 = "[[RACE_PARAMS]]\n[INFO]"@;
    let r2 = "[[races.points]]"@;
    let r4 = "[[races.types]]"@;
    assert(!w5.contains(r1[0]) && !w5.contains(r2[0]) && !w3.contains(r4[0])) by {
        assert(forall|k: int| 0 <= k < w5.len() ==> w5[k] != '[');
        assert(forall|k: int| 0 <= k < w3.len() ==> w3[k] != '[');
    }
    assert(!r1.contains(' ') && !r2.contains(' ') && !r4.contains(' ')) by {
        assert(forall|k: int| 0 <= k < r1.len() ==> r1[k] != ' ');
        assert(forall|k: int| 0 <= k < r2.len() ==> r2[k] != ' ');
        assert(forall|k: int| 0 <= k < r4.len() ==> r4[k] != ' ');
    }
    let s1 = replace_all(s, "[races.info]"@, r1);
    let s2 = replace_all(s1, "[[days.points]]"@, r2);
    let s3 = replace_all(s2, w3, "="@);
    lemma_rewrite_keeps_absent(s, "[races.info]"@, r1, w5);
    lemma_rewrite_keeps_absent(s1, "[[days.points]]"@, r2, w5);
    lemma_compact_leaves_none(s2);
    lemma_rewrite_keeps_absent(s3, "[[point_types.types]]"@, r4, w3);
}

} // verus!
