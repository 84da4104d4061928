//! The two transliteration filters at text level: each is a pure function
//! from text to text, built from the substitution engine, quote stripping,
//! and (for Ogham only) a fixed sentinel prefix marking start-of-phrase.

use vstd::prelude::*;
use crate::engine::{
    apply_rules, apply_table, contains_pat, matches_at, replace_all, strip_quotes,
    strip_quotes_str,
};
use crate::table::{ogham_rules, ogham_table, seanchlo_rules, seanchlo_table};

verus! {

/// The fixed start-of-phrase sentinel that every Ogham output begins with.
pub open spec fn ogham_start() -> Seq<char> {
    "&#x169b;"@
}

/// What the Ogham filter returns for input text `s`: the rules of
/// [`ogham_rules`] applied in order, quotation marks stripped from the
/// result, and the sentinel prepended.
pub open spec fn ogham_text_spec(s: Seq<char>) -> Seq<char> {
    ogham_start() + strip_quotes(apply_rules(s, ogham_rules()))
}

/// What the Seanchló filter returns for input text `s`: the rules of
/// [`seanchlo_rules`] applied in order and quotation marks stripped from
/// the result. No sentinel is added.
pub open spec fn seanchlo_text_spec(s: Seq<char>) -> Seq<char> {
    strip_quotes(apply_rules(s, seanchlo_rules()))
}

/// The Ogham filter on plain text.
pub fn ogham_text(input: &str) -> (out: String)
    ensures
        out@ == ogham_text_spec(input@),
{
    let table = ogham_table();
    let replaced = apply_table(input, &table);
    let stripped = strip_quotes_str(replaced.as_str());
    let prefix: String = "&#x169b;".to_owned();
    prefix.concat(stripped.as_str())
}

/// The Seanchló filter on plain text.
pub fn seanchlo_text(input: &str) -> (out: String)
    ensures
        out@ == seanchlo_text_spec(input@),
{
    let table = seanchlo_table();
    let replaced = apply_table(input, &table);
    strip_quotes_str(replaced.as_str())
}

proof fn lemma_no_match_shift(s: Seq<char>, p: Seq<char>)
    requires
        s.len() > 0,
        !contains_pat(s, p),
    ensures
        !contains_pat(s.drop_first(), p),
{
    let t = s.drop_first();
    if contains_pat(t, p) {
        let i = choose|i: int| matches_at(t, i, p);
        assert forall|j: int| 0 <= j < p.len() implies s[i + 1 + j] == #[trigger] p[j] by {
            assert(t[i + j] == s[i + 1 + j]);
        }
        assert(matches_at(s, i + 1, p));
    }
}

proof fn lemma_replace_all_no_match(s: Seq<char>, p: Seq<char>, r: Seq<char>)
    requires
        !contains_pat(s, p),
    ensures
        replace_all(s, p, r) == s,
    decreases s.len(),
{
    if p.len() == 0 || s.len() < p.len() {
    } else {
        assert(!matches_at(s, 0, p));
        lemma_no_match_shift(s, p);
        assert(s.skip(1) =~= s.drop_first());
        lemma_replace_all_no_match(s.skip(1), p, r);
        assert(seq![s[0]] + s.skip(1) =~= s);
    }
}

proof fn lemma_apply_rules_no_match(s: Seq<char>, rs: Seq<(Seq<char>, Seq<char>)>)
    requires
        forall|k: int| 0 <= k < rs.len() ==> !contains_pat(s, (#[trigger] rs[k]).0),
    ensures
        apply_rules(s, rs) == s,
    decreases rs.len(),
{
    if rs.len() == 0 {
    } else {
        lemma_replace_all_no_match(s, rs[0].0, rs[0].1);
        assert forall|k: int| 0 <= k < rs.drop_first().len() implies !contains_pat(
            s,
            (#[trigger] rs.drop_first()[k]).0,
        ) by {
            assert(rs.drop_first()[k] == rs[k + 1]);
        }
        lemma_apply_rules_no_match(s, rs.drop_first());
    }
}

/// Pass-through: text that contains none of a filter's match patterns is
/// returned unchanged but for quote stripping and, here, the sentinel
/// prefix.
pub proof fn lemma_ogham_passthrough(s: Seq<char>)
    requires
        forall|k: int|
            0 <= k < ogham_rules().len() ==> !contains_pat(s, (#[trigger] ogham_rules()[k]).0),
    ensures
        ogham_text_spec(s) == ogham_start() + strip_quotes(s),
{
    lemma_apply_rules_no_match(s, ogham_rules());
}

/// Pass-through: text that contains none of the Seanchló match patterns
/// is returned unchanged but for quote stripping.
pub proof fn lemma_seanchlo_passthrough(s: Seq<char>)
    requires
        forall|k: int|
            0 <= k < seanchlo_rules().len() ==> !contains_pat(
                s,
                (#[trigger] seanchlo_rules()[k]).0,
            ),
    ensures
        seanchlo_text_spec(s) == strip_quotes(s),
{
    lemma_apply_rules_no_match(s, seanchlo_rules());
}

proof fn lemma_strip_quotes_no_quote(s: Seq<char>)
    ensures
        forall|i: int| 0 <= i < strip_quotes(s).len() ==> #[trigger] strip_quotes(s)[i] != '"',
    decreases s.len(),
{
    if s.len() == 0 {
    } else {
        lemma_strip_quotes_no_quote(s.drop_first());
        assert forall|i: int| 0 <= i < strip_quotes(s).len() implies #[trigger] strip_quotes(
            s,
        )[i] != '"' by {
            if s[0] == '"' {
                assert(strip_quotes(s)[i] == strip_quotes(s.drop_first())[i]);
            } else if i == 0 {
                assert(strip_quotes(s)[0] == s[0]);
            } else {
                assert(strip_quotes(s)[i] == strip_quotes(s.drop_first())[i - 1]);
            }
        }
    }
}

/// Quote stripping: whatever the input, no filter output contains a
/// quotation mark.
pub proof fn lemma_ogham_no_quotes(s: Seq<char>)
    ensures
        forall|i: int| 0 <= i < ogham_text_spec(s).len() ==> #[trigger] ogham_text_spec(s)[i]
            != '"',
{
    reveal_strlit("&#x169b;");
    lemma_strip_quotes_no_quote(apply_rules(s, ogham_rules()));
    assert forall|i: int| 0 <= i < ogham_text_spec(s).len() implies #[trigger] ogham_text_spec(
        s,
    )[i] != '"' by {
        if i >= ogham_start().len() {
            assert(ogham_text_spec(s)[i] == strip_quotes(apply_rules(s, ogham_rules()))[i
                - ogham_start().len()]);
        }
    }
}

/// Quote stripping: whatever the input, no filter output contains a
/// quotation mark.
pub proof fn lemma_seanchlo_no_quotes(s: Seq<char>)
    ensures
        forall|i: int| 0 <= i < seanchlo_text_spec(s).len() ==> #[trigger] seanchlo_text_spec(
            s,
        )[i] != '"',
{
    lemma_strip_quotes_no_quote(apply_rules(s, seanchlo_rules()));
}

/// Sentinel invariant: every Ogham output begins with the fixed start
/// symbol — exactly one copy of it, whatever the input — and the rest is
/// the substituted, quote-stripped text.
pub proof fn lemma_ogham_sentinel(s: Seq<char>)
    ensures
        ogham_text_spec(s).len() >= ogham_start().len(),
        ogham_text_spec(s).take(ogham_start().len() as int) == ogham_start(),
        ogham_text_spec(s).skip(ogham_start().len() as int) == strip_quotes(
            apply_rules(s, ogham_rules()),
        ),
{
    let tail = strip_quotes(apply_rules(s, ogham_rules()));
    assert((ogham_start() + tail).take(ogham_start().len() as int) =~= ogham_start());
    assert((ogham_start() + tail).skip(ogham_start().len() as int) =~= tail);
}

/// Determinism: the filters are functions of the input text alone, so two
/// calls on equal text yield equal output. Each executable filter returns
/// exactly its spec function of the input, so this pins both calls.
pub proof fn lemma_filters_deterministic(s1: Seq<char>, s2: Seq<char>)
    requires
        s1 == s2,
    ensures
        ogham_text_spec(s1) == ogham_text_spec(s2),
        seanchlo_text_spec(s1) == seanchlo_text_spec(s2),
{
}

proof fn lemma_apply_rules_empty(rs: Seq<(Seq<char>, Seq<char>)>)
    ensures
        apply_rules(Seq::<char>::empty(), rs) == Seq::<char>::empty(),
    decreases rs.len(),
{
    if rs.len() == 0 {
    } else {
        assert(replace_all(Seq::<char>::empty(), rs[0].0, rs[0].1) == Seq::<char>::empty());
        lemma_apply_rules_empty(rs.drop_first());
    }
}

/// Empty input: Ogham on empty text yields exactly the sentinel; Seanchló
/// on empty text yields empty text.
pub proof fn lemma_empty_input()
    ensures
        ogham_text_spec(Seq::<char>::empty()) == ogham_start(),
        seanchlo_text_spec(Seq::<char>::empty()) == Seq::<char>::empty(),
{
    lemma_apply_rules_empty(ogham_rules());
    lemma_apply_rules_empty(seanchlo_rules());
    assert(ogham_start() + strip_quotes(Seq::<char>::empty()) =~= ogham_start());
}

} // verus!


