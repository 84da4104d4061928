//! Ordered pattern tables: the configuration that drives the substitution
//! engine. A table is an ordered list of rules; order is part of the
//! contract (a digraph listed before its constituent letters is matched
//! first). Tables are validated at construction time: an empty match
//! pattern or a duplicate match pattern is a configuration error, never a
//! per-call error.

use vstd::prelude::*;

verus! {

/// One substitution rule: every occurrence of `pat` in the working text is
/// rewritten to `rep`.
#[derive(Debug)]
pub struct Rule {
    pub pat: String,
    pub rep: String,
}

impl View for Rule {
    type V = (Seq<char>, Seq<char>);

    open spec fn view(&self) -> (Seq<char>, Seq<char>) {
        (self.pat@, self.rep@)
    }
}

impl Rule {
    pub fn new(pat: &str, rep: &str) -> (r: Rule)
        ensures
            r@ == (pat@, rep@),
    {
        Rule { pat: pat.to_owned(), rep: rep.to_owned() }
    }
}

/// The mathematical view of a rule list: a sequence of (match, replacement)
/// pairs of character sequences.
pub open spec fn rules_of(rules: Seq<Rule>) -> Seq<(Seq<char>, Seq<char>)> {
    rules.map_values(|r: Rule| r@)
}

/// Every match pattern is non-empty.
pub open spec fn pats_nonempty(rs: Seq<(Seq<char>, Seq<char>)>) -> bool {
    forall|k: int| 0 <= k < rs.len() ==> (#[trigger] rs[k]).0.len() > 0
}

/// No two rules share a match pattern.
pub open spec fn pats_distinct(rs: Seq<(Seq<char>, Seq<char>)>) -> bool {
    forall|i: int, j: int|
        0 <= i < j < rs.len() ==> (#[trigger] rs[i]).0 != (#[trigger] rs[j]).0
}

/// A well-formed table configuration: non-empty, pairwise distinct match
/// patterns.
pub open spec fn table_valid(rs: Seq<(Seq<char>, Seq<char>)>) -> bool {
    pats_nonempty(rs) && pats_distinct(rs)
}

/// `p` is a proper prefix of `q`.
pub open spec fn strict_prefix(p: Seq<char>, q: Seq<char>) -> bool {
    p.len() < q.len() && p == q.take(p.len() as int)
}

/// The precedence invariant that table order encodes: no rule's match
/// pattern is a proper prefix of a *later* rule's match pattern — such a
/// later rule could never fire, since the earlier rule would always
/// consume its text first. The reverse arrangement — a later rule that is
/// a proper prefix of an earlier one, as each single letter is of the
/// Ogham digraphs — is the intended fallback and is allowed.
pub open spec fn prefix_ordered(rs: Seq<(Seq<char>, Seq<char>)>) -> bool {
    forall|i: int, j: int|
        0 <= i < j < rs.len() ==> !strict_prefix((#[trigger] rs[i]).0, (#[trigger] rs[j]).0)
}

/// A rejected table configuration.
#[derive(Debug, PartialEq, Eq)]
pub enum TableError {
    /// Some rule's match pattern is the empty string.
    EmptyPattern,
    /// Two rules at different positions have the same match pattern.
    DuplicatePattern,
}

/// An ordered, immutable pattern table, validated at construction.
#[derive(Debug)]
pub struct PatternTable {
    pub rules: Vec<Rule>,
}

impl View for PatternTable {
    type V = Seq<(Seq<char>, Seq<char>)>;

    open spec fn view(&self) -> Seq<(Seq<char>, Seq<char>)> {
        rules_of(self.rules@)
    }
}

impl PatternTable {
    /// What the substitution engine needs of a table: every match pattern
    /// is non-empty (so a single substitution pass terminates).
    pub open spec fn wf(&self) -> bool {
        pats_nonempty(self@)
    }

    /// Validates and takes ownership of an ordered rule list.
    ///
    /// Fails exactly when some match pattern is empty (`EmptyPattern`,
    /// reported with priority) or when two rules share a match pattern
    /// (`DuplicatePattern`).
    pub fn new(rules: Vec<Rule>) -> (r: Result<PatternTable, TableError>)
        ensures
            r is Ok <==> table_valid(rules_of(rules@)),
            r matches Ok(t) ==> t@ == rules_of(rules@) && t.wf(),
            !pats_nonempty(rules_of(rules@)) ==> r == Err::<PatternTable, TableError>(
                TableError::EmptyPattern,
            ),
            pats_nonempty(rules_of(rules@)) && !pats_distinct(rules_of(rules@)) ==> r
                == Err::<PatternTable, TableError>(TableError::DuplicatePattern),
    {
        let ghost rv = rules_of(rules@);
        let n = rules.len();
        let mut i: usize = 0;
        while i < n
            invariant
                n == rules.len(),
                rv == rules_of(rules@),
                i <= n,
                forall|k: int| 0 <= k < i ==> (#[trigger] rv[k]).0.len() > 0,
            decreases n - i,
        {
            if rules[i].pat.as_str().unicode_len() == 0 {
                proof {
                    assert(rv[i as int].0.len() == 0);
                }
                return Err(TableError::EmptyPattern);
            }
            i += 1;
        }
        assert(pats_nonempty(rv));
        let mut i: usize = 0;
        while i < n
            invariant
                n == rules.len(),
                rv == rules_of(rules@),
                pats_nonempty(rv),
                i <= n,
                forall|a: int, b: int|
                    0 <= a < b < n && a < i ==> (#[trigger] rv[a]).0 != (#[trigger] rv[b]).0,
            decreases n - i,
        {
            let mut j: usize = i + 1;
            while j < n
                invariant
                    n == rules.len(),
                    rv == rules_of(rules@),
                    pats_nonempty(rv),
                    i < j,
                    j <= n,
                    i < n,
                    forall|b: int| i < b < j ==> rv[i as int].0 != (#[trigger] rv[b]).0,
                decreases n - j,
            {
                if rules[i].pat == rules[j].pat {
                    proof {
                        assert(rv[i as int].0 == rv[j as int].0);
                    }
                    return Err(TableError::DuplicatePattern);
                }
                j += 1;
            }
            i += 1;
        }
        assert(pats_distinct(rv));
        Ok(PatternTable { rules })
    }
}

/// The Ogham rule list, in precedence order: the digraphs `ng` and `st`
/// come before every single-letter rule, so they are consumed as units;
/// each single letter maps to its rune's character reference, and the
/// space to the Ogham word separator. A few replacements contain letters
/// that a *later* rule still rewrites (the `d` in the `ng` replacement,
/// the `e` in the `st` replacement, the `a` in the `q` replacement) —
/// an accepted consequence of table ordering, and part of the contract.
pub open spec fn ogham_rules() -> Seq<(Seq<char>, Seq<char>)> {
    seq![
        ("ng"@, "&#x168d;"@),
        ("st"@, "&#x168e;"@),
        ("b"@, "&#x1681;"@),
        ("l"@, "&#x1682;"@),
        ("f"@, "&#x1683;"@),
        ("s"@, "&#x1684;"@),
        ("n"@, "&#x1685;"@),
        ("h"@, "&#x1686;"@),
        ("d"@, "&#x1687;"@),
        ("t"@, "&#x1688;"@),
        ("c"@, "&#x1689;"@),
        ("q"@, "&#x168a;"@),
        ("m"@, "&#x168b;"@),
        ("g"@, "&#x168c;"@),
        ("r"@, "&#x168f;"@),
        ("a"@, "&#x1690;"@),
        ("o"@, "&#x1691;"@),
        ("u"@, "&#x1692;"@),
        ("e"@, "&#x1693;"@),
        ("i"@, "&#x1694;"@),
        ("p"@, "&#x169a;"@),
        (" "@, "&#x1680;"@),
    ]
}

/// The Gaelic rule list: doubled vowels and consonant-`h` digraphs each
/// map to a single precomposed letter. Every rule is a two-character
/// digraph; unmatched letters pass through unchanged.
pub open spec fn seanchlo_rules() -> Seq<(Seq<char>, Seq<char>)> {
    seq![
        ("aa"@, "\u{00E1}"@),
        ("oo"@, "\u{00F3}"@),
        ("uu"@, "\u{00FA}"@),
        ("ee"@, "\u{00E9}"@),
        ("ii"@, "\u{00ED}"@),
        ("bh"@, "\u{1E03}"@),
        ("ch"@, "\u{010B}"@),
        ("dh"@, "\u{1E0B}"@),
        ("fh"@, "\u{1E1F}"@),
        ("gh"@, "\u{0121}"@),
        ("mh"@, "\u{1E41}"@),
        ("ph"@, "\u{1E57}"@),
        ("sh"@, "\u{1E9B}"@),
        ("th"@, "\u{1E6B}"@),
    ]
}

/// The Ogham rule list keeps the precedence invariant: its two digraphs
/// stand before every single-letter rule, and no match pattern is a
/// proper prefix of a later one. The single letters `n`, `g`, `s`, `t`
/// are proper prefixes of the *earlier* digraphs `ng` and `st` — the
/// documented fallback arrangement that lets a digraph be consumed as a
/// unit before its constituent letters are matched.
pub proof fn lemma_ogham_rules_prefix_ordered()
    ensures
        prefix_ordered(ogham_rules()),
{
    reveal_strlit("ng");
    reveal_strlit("st");
    reveal_strlit("b");
    reveal_strlit("l");
    reveal_strlit("f");
    reveal_strlit("s");
    reveal_strlit("n");
    reveal_strlit("h");
    reveal_strlit("d");
    reveal_strlit("t");
    reveal_strlit("c");
    reveal_strlit("q");
    reveal_strlit("m");
    reveal_strlit("g");
    reveal_strlit("r");
    reveal_strlit("a");
    reveal_strlit("o");
    reveal_strlit("u");
    reveal_strlit("e");
    reveal_strlit("i");
    reveal_strlit("p");
    reveal_strlit(" ");
    let rs = ogham_rules();
    assert(forall|k: int|
        0 <= k < rs.len() ==> (#[trigger] rs[k]).0.len() == if k < 2 {
            2int
        } else {
            1int
        });
    assert forall|i: int, j: int| 0 <= i < j < rs.len() implies !strict_prefix(
        (#[trigger] rs[i]).0,
        (#[trigger] rs[j]).0,
    ) by {
        assert(rs[i].0.len() >= rs[j].0.len());
    }
}

/// The Seanchló rule list keeps the precedence invariant: every match
/// pattern is a two-character digraph, so none can be a proper prefix of
/// another.
pub proof fn lemma_seanchlo_rules_prefix_ordered()
    ensures
        prefix_ordered(seanchlo_rules()),
{
    reveal_strlit("aa");
    reveal_strlit("oo");
    reveal_strlit("uu");
    reveal_strlit("ee");
    reveal_strlit("ii");
    reveal_strlit("bh");
    reveal_strlit("ch");
    reveal_strlit("dh");
    reveal_strlit("fh");
    reveal_strlit("gh");
    reveal_strlit("mh");
    reveal_strlit("ph");
    reveal_strlit("sh");
    reveal_strlit("th");
    let rs = seanchlo_rules();
    assert(forall|k: int| 0 <= k < rs.len() ==> (#[trigger] rs[k]).0.len() == 2);
    assert forall|i: int, j: int| 0 <= i < j < rs.len() implies !strict_prefix(
        (#[trigger] rs[i]).0,
        (#[trigger] rs[j]).0,
    ) by {
        assert(rs[i].0.len() >= rs[j].0.len());
    }
}

/// Builds the Ogham table, with its rules exactly in precedence order.
pub fn ogham_table() -> (t: PatternTable)
    ensures
        t.wf(),
        t@ == ogham_rules(),
        prefix_ordered(t@),
{
    let mut rules: Vec<Rule> = Vec::new();
    rules.push(Rule::new("ng", "&#x168d;"));
    rules.push(Rule::new("st", "&#x168e;"));
    rules.push(Rule::new("b", "&#x1681;"));
    rules.push(Rule::new("l", "&#x1682;"));
    rules.push(Rule::new("f", "&#x1683;"));
    rules.push(Rule::new("s", "&#x1684;"));
    rules.push(Rule::new("n", "&#x1685;"));
    rules.push(Rule::new("h", "&#x1686;"));
    rules.push(Rule::new("d", "&#x1687;"));
    rules.push(Rule::new("t", "&#x1688;"));
    rules.push(Rule::new("c", "&#x1689;"));
    rules.push(Rule::new("q", "&#x168a;"));
    rules.push(Rule::new("m", "&#x168b;"));
    rules.push(Rule::new("g", "&#x168c;"));
    rules.push(Rule::new("r", "&#x168f;"));
    rules.push(Rule::new("a", "&#x1690;"));
    rules.push(Rule::new("o", "&#x1691;"));
    rules.push(Rule::new("u", "&#x1692;"));
    rules.push(Rule::new("e", "&#x1693;"));
    rules.push(Rule::new("i", "&#x1694;"));
    rules.push(Rule::new("p", "&#x169a;"));
    rules.push(Rule::new(" ", "&#x1680;"));
    let t = PatternTable { rules };
    proof {
        assert(t@ =~= ogham_rules());
        reveal_strlit("ng");
        reveal_strlit("st");
        reveal_strlit("b");
        reveal_strlit("l");
        reveal_strlit("f");
        reveal_strlit("s");
        reveal_strlit("n");
        reveal_strlit("h");
        reveal_strlit("d");
        reveal_strlit("t");
        reveal_strlit("c");
        reveal_strlit("q");
        reveal_strlit("m");
        reveal_strlit("g");
        reveal_strlit("r");
        reveal_strlit("a");
        reveal_strlit("o");
        reveal_strlit("u");
        reveal_strlit("e");
        reveal_strlit("i");
        reveal_strlit("p");
        reveal_strlit(" ");
        assert(pats_nonempty(t@));
        lemma_ogham_rules_prefix_ordered();
    }
    t
}

/// Builds the Seanchló table, with its rules exactly in precedence order.
pub fn seanchlo_table() -> (t: PatternTable)
    ensures
        t.wf(),
        t@ == seanchlo_rules(),
        prefix_ordered(t@),
{
    let mut rules: Vec<Rule> = Vec::new();
    rules.push(Rule::new("aa", "\u{00E1}"));
    rules.push(Rule::new("oo", "\u{00F3}"));
    rules.push(Rule::new("uu", "\u{00FA}"));
    rules.push(Rule::new("ee", "\u{00E9}"));
    rules.push(Rule::new("ii", "\u{00ED}"));
    rules.push(Rule::new("bh", "\u{1E03}"));
    rules.push(Rule::new("ch", "\u{010B}"));
    rules.push(Rule::new("dh", "\u{1E0B}"));
    rules.push(Rule::new("fh", "\u{1E1F}"));
    rules.push(Rule::new("gh", "\u{0121}"));
    rules.push(Rule::new("mh", "\u{1E41}"));
    rules.push(Rule::new("ph", "\u{1E57}"));
    rules.push(Rule::new("sh", "\u{1E9B}"));
    rules.push(Rule::new("th", "\u{1E6B}"));
    let t = PatternTable { rules };
    proof {
        assert(t@ =~= seanchlo_rules());
        reveal_strlit("aa");
        reveal_strlit("oo");
        reveal_strlit("uu");
        reveal_strlit("ee");
        reveal_strlit("ii");
        reveal_strlit("bh");
        reveal_strlit("ch");
        reveal_strlit("dh");
        reveal_strlit("fh");
        reveal_strlit("gh");
        reveal_strlit("mh");
        reveal_strlit("ph");
        reveal_strlit("sh");
        reveal_strlit("th");
        assert(pats_nonempty(t@));
        lemma_seanchlo_rules_prefix_ordered();
    }
    t
}

} // verus!
