//! The links of a page: the scanner that finds link markup in wikitext, and
//! the rule that selects, among the candidates found, the pages linked to.

use crate::text::{
    chars_of, contains_text, occurs_at, occurs_in, replace_char, replaced, same_chars,
    slice_string, string_of,
};
use vstd::prelude::*;

verus! {

/// The characters that a link's target and label are made of: ASCII letters
/// and digits, the space and the two round brackets.
pub open spec fn link_char(c: char) -> bool {
    ('a' <= c && c <= 'z') || ('A' <= c && c <= 'Z') || ('0' <= c && c <= '9') || c == ' ' || c
        == '(' || c == ')'
}

/// How many link characters stand in `s` from `from` on, without a gap.
pub open spec fn run_len(s: Seq<char>, from: int) -> nat
    decreases s.len() - from,
{
    if 0 <= from < s.len() && link_char(s[from]) {
        1 + run_len(s, from + 1)
    } else {
        0
    }
}

/// Whether the two closing brackets stand at `at`.
pub open spec fn closes_at(s: Seq<char>, at: int) -> bool {
    0 <= at && at + 2 <= s.len() && s[at] == ']' && s[at + 1] == ']'
}

/// The link that begins at `at`: `[[Target]]` or `[[Target|Label]]`, target
/// and label each a run of one or more link characters that reaches up to the
/// next sign. The answer is the length of the target and the length of what
/// lies between the target and the closing brackets (nothing, or the bar and
/// the label).
pub open spec fn link_at(s: Seq<char>, at: int) -> Option<(nat, nat)> {
    if 0 <= at && at + 2 <= s.len() && s[at] == '[' && s[at + 1] == '[' {
        let target = run_len(s, at + 2);
        let after = at + 2 + target;
        if target == 0 {
            None
        } else if closes_at(s, after) {
            Some((target, 0nat))
        } else if after < s.len() && s[after] == '|' {
            let label = run_len(s, after + 1);
            if label > 0 && closes_at(s, after + 1 + label) {
                Some((target, label + 1))
            } else {
                None
            }
        } else {
            None
        }
    } else {
        None
    }
}

/// The links of `s` from `from` on: the leftmost first, each next one sought
/// behind the end of the one before. Of each the whole markup and the target.
pub open spec fn links_from(s: Seq<char>, from: int) -> Seq<(Seq<char>, Seq<char>)>
    decreases s.len() - from,
{
    if from < 0 || from >= s.len() {
        Seq::empty()
    } else {
        match link_at(s, from) {
            Some((target, rest)) => seq![
                (s.subrange(from, from + target + rest + 4), s.subrange(from + 2, from + 2 + target)),
            ] + links_from(s, from + target + rest + 4),
            None => links_from(s, from + 1),
        }
    }
}

/// The identity of the page with the title `title`: its spaces are
/// underscores.
pub open spec fn identity_of(title: Seq<char>) -> Seq<char> {
    replaced(title, ' ', '_')
}

/// Whether `pathinfo` is written as an identity: without a space.
pub open spec fn is_identity(pathinfo: Seq<char>) -> bool {
    forall|i: int| 0 <= i < pathinfo.len() ==> #[trigger] pathinfo[i] != ' '
}

/// The identity of a page is written without a space, and what is written so
/// is its own identity.
pub proof fn lemma_identity_is_normal(title: Seq<char>)
    ensures
        is_identity(identity_of(title)),
        is_identity(title) ==> identity_of(title) == title,
{
    if is_identity(title) {
        assert(identity_of(title) =~= title);
    }
}

/// The page that is never counted among the links of another: nearly every
/// source is linked through it.
pub open spec fn filtered_page() -> Seq<char> {
    "Wayback Machine"@
}

/// How a candidate is held against the filtered page.
#[derive(Clone, Copy, Debug, PartialEq, Eq, Structural)]
pub enum LinkFilter {
    /// The candidate is a piece of markup: it goes where the filtered page is
    /// named anywhere in it, as target or as label.
    Markup,
    /// The candidate is a title: it goes only where it is the title of the
    /// filtered page.
    Title,
}

/// Whether `context` names the filtered page somewhere.
pub open spec fn names_filtered_page(context: Seq<char>) -> bool {
    occurs_in(identity_of(context), identity_of(filtered_page()))
}

/// Whether `context` is the filtered page.
pub open spec fn is_filtered_page(context: Seq<char>) -> bool {
    identity_of(context) == identity_of(filtered_page())
}

/// Whether a candidate with the context `context` goes by `rule`.
pub open spec fn filtered_by(rule: LinkFilter, context: Seq<char>) -> bool {
    match rule {
        LinkFilter::Markup => names_filtered_page(context),
        LinkFilter::Title => is_filtered_page(context),
    }
}

/// Whether a candidate before the one at `at` has the same identity.
pub open spec fn seen_before(candidates: Seq<(Seq<char>, Seq<char>)>, at: int) -> bool {
    exists|j: int|
        0 <= j < at && identity_of(#[trigger] candidates[j].1) == identity_of(candidates[at].1)
}

/// Whether the candidate at `at` is selected: it is the first with its
/// identity, and its context does not go by `rule`.
pub open spec fn selected_at(
    candidates: Seq<(Seq<char>, Seq<char>)>,
    at: int,
    rule: LinkFilter,
) -> bool {
    !seen_before(candidates, at) && !filtered_by(rule, candidates[at].0)
}

/// The identities of the pages that `candidates` link to. A candidate is a
/// context and, within it, a target. The selected ones stay, in their order:
/// the first of each identity, unless its context goes by `rule`.
pub open spec fn selected(candidates: Seq<(Seq<char>, Seq<char>)>, rule: LinkFilter) -> Seq<Seq<char>>
    decreases candidates.len(),
{
    if candidates.len() == 0 {
        Seq::empty()
    } else {
        let before = selected(candidates.drop_last(), rule);
        if selected_at(candidates, candidates.len() - 1, rule) {
            before.push(identity_of(candidates.last().1))
        } else {
            before
        }
    }
}

/// An identity is among the selected ones exactly if a selected candidate has
/// it.
pub proof fn lemma_selected_members(
    candidates: Seq<(Seq<char>, Seq<char>)>,
    identity: Seq<char>,
    rule: LinkFilter,
)
    ensures
        selected(candidates, rule).contains(identity) <==> exists|i: int|
            0 <= i < candidates.len() && identity_of(#[trigger] candidates[i].1) == identity
                && selected_at(candidates, i, rule),
    decreases candidates.len(),
{
    if candidates.len() > 0 {
        let init = candidates.drop_last();
        let last = candidates.len() - 1;
        lemma_selected_members(init, identity, rule);
        assert forall|i: int| 0 <= i < init.len() implies selected_at(init, i, rule) == selected_at(
            candidates,
            i,
            rule,
        ) by {
            lemma_selected_at_prefix(candidates, init.len() as int, i, rule);
        }
        if selected(candidates, rule).contains(identity) {
            let k = choose|k: int|
                0 <= k < selected(candidates, rule).len() && selected(candidates, rule)[k] == identity;
            if selected_at(candidates, last, rule) && k == selected(init, rule).len() {
                assert(identity_of(candidates[last].1) == identity);
            } else {
                assert(selected(init, rule)[k] == identity);
                assert(selected(init, rule).contains(identity));
                let i = choose|i: int|
                    0 <= i < init.len() && identity_of(#[trigger] init[i].1) == identity
                        && selected_at(init, i, rule);
                assert(identity_of(candidates[i].1) == identity && selected_at(candidates, i, rule));
            }
        }
        if exists|i: int|
            0 <= i < candidates.len() && identity_of(#[trigger] candidates[i].1) == identity
                && selected_at(candidates, i, rule) {
            let i = choose|i: int|
                0 <= i < candidates.len() && identity_of(#[trigger] candidates[i].1) == identity
                    && selected_at(candidates, i, rule);
            if i == last {
                assert(selected(candidates, rule).last() == identity);
            } else {
                assert(identity_of(init[i].1) == identity && selected_at(init, i, rule));
                assert(selected(init, rule).contains(identity));
                let k = choose|k: int| 0 <= k < selected(init, rule).len() && selected(init, rule)[k] == identity;
                assert(selected(candidates, rule)[k] == identity);
            }
        }
    }
}

/// Whether a candidate is selected depends on the candidates up to it alone.
pub proof fn lemma_selected_at_prefix(
    candidates: Seq<(Seq<char>, Seq<char>)>,
    len: int,
    at: int,
    rule: LinkFilter,
)
    requires
        0 <= at < len <= candidates.len(),
    ensures
        selected_at(candidates.subrange(0, len), at, rule) == selected_at(candidates, at, rule),
{
    let prefix = candidates.subrange(0, len);
    if seen_before(candidates, at) {
        let j = choose|j: int|
            0 <= j < at && identity_of(#[trigger] candidates[j].1) == identity_of(candidates[at].1);
        assert(identity_of(prefix[j].1) == identity_of(prefix[at].1));
    }
    if seen_before(prefix, at) {
        let j = choose|j: int|
            0 <= j < at && identity_of(#[trigger] prefix[j].1) == identity_of(prefix[at].1);
        assert(identity_of(candidates[j].1) == identity_of(candidates[at].1));
    }
}

/// No identity is selected twice.
pub proof fn lemma_selected_no_duplicates(
    candidates: Seq<(Seq<char>, Seq<char>)>,
    rule: LinkFilter,
)
    ensures
        selected(candidates, rule).no_duplicates(),
    decreases candidates.len(),
{
    if candidates.len() > 0 {
        let init = candidates.drop_last();
        let last = candidates.len() - 1;
        lemma_selected_no_duplicates(init, rule);
        if selected_at(candidates, last, rule) {
            let identity = identity_of(candidates[last].1);
            lemma_selected_members(init, identity, rule);
            if selected(init, rule).contains(identity) {
                let i = choose|i: int|
                    0 <= i < init.len() && identity_of(#[trigger] init[i].1) == identity
                        && selected_at(init, i, rule);
                assert(identity_of(candidates[i].1) == identity_of(candidates[last].1));
                assert(seen_before(candidates, last));
            }
            assert forall|a: int, b: int|
                0 <= a < selected(candidates, rule).len() && 0 <= b < selected(candidates, rule).len() && a
                    != b implies selected(candidates, rule)[a] != selected(candidates, rule)[b] by {
                if a == selected(init, rule).len() {
                    assert(selected(init, rule)[b] == selected(candidates, rule)[b]);
                } else if b == selected(init, rule).len() {
                    assert(selected(init, rule)[a] == selected(candidates, rule)[a]);
                }
            }
        }
    }
}

/// Where a text stands in a context, its identity stands in the identity of
/// the context.
pub proof fn lemma_identity_occurs(context: Seq<char>, target: Seq<char>)
    requires
        occurs_in(context, target),
    ensures
        occurs_in(identity_of(context), identity_of(target)),
{
    let at = choose|at: int| occurs_at(context, target, at);
    assert(identity_of(context).subrange(at, at + target.len()) =~= identity_of(
        context.subrange(at, at + target.len()),
    ));
    assert(occurs_at(identity_of(context), identity_of(target), at));
}

/// The filtered page is never selected, whenever each candidate's target
/// stands in its context and, where titles are selected, is its context.
pub proof fn lemma_selected_excludes_filtered(
    candidates: Seq<(Seq<char>, Seq<char>)>,
    rule: LinkFilter,
)
    requires
        forall|i: int|
            0 <= i < candidates.len() ==> occurs_in(
                (#[trigger] candidates[i]).0,
                candidates[i].1,
            ),
        rule == LinkFilter::Title ==> forall|i: int|
            0 <= i < candidates.len() ==> (#[trigger] candidates[i]).0 == candidates[i].1,
    ensures
        !selected(candidates, rule).contains(identity_of(filtered_page())),
{
    let identity = identity_of(filtered_page());
    lemma_selected_members(candidates, identity, rule);
    if selected(candidates, rule).contains(identity) {
        let i = choose|i: int|
            0 <= i < candidates.len() && identity_of(#[trigger] candidates[i].1) == identity
                && selected_at(candidates, i, rule);
        assert(occurs_in(candidates[i].0, candidates[i].1));
        lemma_identity_occurs(candidates[i].0, candidates[i].1);
        assert(filtered_by(rule, candidates[i].0));
    }
}

/// Every candidate that is no repeat and does not go by `rule` is selected:
/// its identity is among the selected ones.
pub proof fn lemma_kept_candidate_is_selected(
    candidates: Seq<(Seq<char>, Seq<char>)>,
    rule: LinkFilter,
    at: int,
)
    requires
        0 <= at < candidates.len(),
        !seen_before(candidates, at),
        !filtered_by(rule, candidates[at].0),
    ensures
        selected(candidates, rule).contains(identity_of(candidates[at].1)),
{
    lemma_selected_members(candidates, identity_of(candidates[at].1), rule);
    assert(selected_at(candidates, at, rule));
}

/// The selected identities stand in the order of the candidates that gave
/// them: each comes from a later candidate than the one before it.
pub proof fn lemma_selected_in_order(
    candidates: Seq<(Seq<char>, Seq<char>)>,
    rule: LinkFilter,
) -> (origin: Seq<int>)
    ensures
        origin.len() == selected(candidates, rule).len(),
        forall|k: int|
            0 <= k < origin.len() ==> 0 <= #[trigger] origin[k] < candidates.len() && selected_at(
                candidates,
                origin[k],
                rule,
            ) && selected(candidates, rule)[k] == identity_of(candidates[origin[k]].1),
        forall|a: int, b: int| 0 <= a < b < origin.len() ==> origin[a] < origin[b],
    decreases candidates.len(),
{
    if candidates.len() == 0 {
        Seq::empty()
    } else {
        let init = candidates.drop_last();
        let last = candidates.len() - 1;
        let before = lemma_selected_in_order(init, rule);
        assert forall|i: int| 0 <= i < init.len() implies selected_at(init, i, rule) == selected_at(
            candidates,
            i,
            rule,
        ) by {
            lemma_selected_at_prefix(candidates, init.len() as int, i, rule);
        }
        if selected_at(candidates, last, rule) {
            before.push(last)
        } else {
            before
        }
    }
}

fn is_link_char(c: char) -> (r: bool)
    ensures
        r == link_char(c),
{
    ('a' <= c && c <= 'z') || ('A' <= c && c <= 'Z') || ('0' <= c && c <= '9') || c == ' ' || c
        == '(' || c == ')'
}

fn run_length(s: &Vec<char>, from: usize) -> (n: usize)
    requires
        from <= s.len(),
    ensures
        n == run_len(s@, from as int),
        from + n <= s.len(),
{
    let mut k: usize = from;
    while k < s.len() && is_link_char(s[k])
        invariant
            from <= k <= s.len(),
            run_len(s@, from as int) == (k - from) + run_len(s@, k as int),
        decreases s.len() - k,
    {
        k += 1;
    }
    k - from
}

fn closes(s: &Vec<char>, at: usize) -> (r: bool)
    requires
        at <= s.len(),
    ensures
        r == closes_at(s@, at as int),
{
    s.len() - at >= 2 && s[at] == ']' && s[at + 1] == ']'
}

fn link_here(s: &Vec<char>, at: usize) -> (r: Option<(usize, usize)>)
    requires
        at <= s.len(),
    ensures
        match r {
            Some((target, rest)) => link_at(s@, at as int) == Some((target as nat, rest as nat))
                && at + target + rest + 4 <= s.len(),
            None => link_at(s@, at as int) is None,
        },
{
    if s.len() - at < 2 || s[at] != '[' || s[at + 1] != '[' {
        return None;
    }
    let target = run_length(s, at + 2);
    let after = at + 2 + target;
    if target == 0 {
        None
    } else if closes(s, after) {
        Some((target, 0))
    } else if after < s.len() && s[after] == '|' {
        let label = run_length(s, after + 1);
        if label > 0 && closes(s, after + 1 + label) {
            Some((target, label + 1))
        } else {
            None
        }
    } else {
        None
    }
}

/// Finds the links in `text`. Of each link the whole markup and the target are
/// handed back.
pub fn scan_links(text: &str) -> (r: Vec<(String, String)>)
    ensures
        r.deep_view() == links_from(text@, 0),
{
    let s = chars_of(text);
    let mut found: Vec<(String, String)> = Vec::new();
    let mut at: usize = 0;
    while at < s.len()
        invariant
            at <= s.len(),
            s@ == text@,
            found.deep_view() + links_from(s@, at as int) == links_from(s@, 0),
        decreases s.len() - at,
    {
        match link_here(&s, at) {
            Some((target, rest)) => {
                let end = at + target + rest + 4;
                let whole = slice_string(&s, at, end);
                let name = slice_string(&s, at + 2, at + 2 + target);
                let ghost before = found.deep_view();
                found.push((whole, name));
                assert(found.deep_view() =~= before.push(
                    (s@.subrange(at as int, end as int), s@.subrange(at + 2, at + 2 + target)),
                ));
                assert(before.push(
                    (s@.subrange(at as int, end as int), s@.subrange(at + 2, at + 2 + target)),
                ) + links_from(s@, end as int) =~= before + links_from(s@, at as int));
                at = end;
            },
            None => {
                at += 1;
            },
        }
    }
    assert(found.deep_view() + links_from(s@, at as int) =~= found.deep_view());
    found
}

/// Every target that the scanner finds stands in the markup found with it.
pub proof fn lemma_links_hold_targets(s: Seq<char>, from: int)
    ensures
        forall|i: int|
            0 <= i < links_from(s, from).len() ==> occurs_in(
                (#[trigger] links_from(s, from)[i]).0,
                links_from(s, from)[i].1,
            ),
    decreases s.len() - from,
{
    if 0 <= from < s.len() {
        match link_at(s, from) {
            Some((target, rest)) => {
                let end = from + target + rest + 4;
                lemma_run_fits(s, from + 2);
                if rest > 0 {
                    lemma_run_fits(s, from + 2 + target + 1);
                }
                lemma_links_hold_targets(s, end);
                let whole = s.subrange(from, end);
                let name = s.subrange(from + 2, from + 2 + target);
                assert(whole.subrange(2, 2int + name.len()) =~= name);
                assert(occurs_at(whole, name, 2));
                let tail = links_from(s, end);
                assert(links_from(s, from) == seq![(whole, name)] + tail);
                assert forall|i: int| 0 <= i < links_from(s, from).len() implies occurs_in(
                    (#[trigger] links_from(s, from)[i]).0,
                    links_from(s, from)[i].1,
                ) by {
                    if i > 0 {
                        assert(links_from(s, from)[i] == tail[i - 1]);
                        assert(occurs_in(tail[i - 1].0, tail[i - 1].1));
                    } else {
                        assert(links_from(s, from)[i] == (whole, name));
                    }
                }
            },
            None => {
                lemma_links_hold_targets(s, from + 1);
                assert(links_from(s, from) == links_from(s, from + 1));
            },
        }
    }
}

/// A run of link characters ends within the text.
pub proof fn lemma_run_fits(s: Seq<char>, from: int)
    requires
        0 <= from,
    ensures
        from + run_len(s, from) <= s.len() || run_len(s, from) == 0,
    decreases s.len() - from,
{
    if from < s.len() && link_char(s[from]) {
        lemma_run_fits(s, from + 1);
    }
}

/// Selects the linked pages among `candidates` by `rule` and hands back their
/// identities, in the order in which they were found.
pub fn select_links(candidates: &Vec<(String, String)>, rule: LinkFilter) -> (r: Vec<String>)
    ensures
        r.deep_view() == selected(candidates.deep_view(), rule),
        forall|i: int| 0 <= i < r.len() ==> is_identity(#[trigger] r[i]@),
{
    let ghost all = candidates.deep_view();
    let mut identities: Vec<Vec<char>> = Vec::new();
    let mut k: usize = 0;
    while k < candidates.len()
        invariant
            k <= candidates.len(),
            all == candidates.deep_view(),
            identities.len() == k,
            forall|j: int| 0 <= j < k ==> (#[trigger] identities[j])@ == identity_of(all[j].1),
        decreases candidates.len() - k,
    {
        let target = chars_of(candidates[k].1.as_str());
        identities.push(replace_char(&target, ' ', '_'));
        k += 1;
    }
    let filtered = replace_char(&chars_of("Wayback Machine"), ' ', '_');
    let mut chosen: Vec<String> = Vec::new();
    let mut i: usize = 0;
    while i < candidates.len()
        invariant
            i <= candidates.len(),
            all == candidates.deep_view(),
            identities.len() == candidates.len(),
            forall|j: int|
                0 <= j < identities.len() ==> (#[trigger] identities[j])@ == identity_of(all[j].1),
            filtered@ == identity_of(filtered_page()),
            chosen.deep_view() == selected(all.subrange(0, i as int), rule),
            forall|j: int| 0 <= j < chosen.len() ==> is_identity(#[trigger] chosen[j]@),
        decreases candidates.len() - i,
    {
        let mut seen = false;
        let mut j: usize = 0;
        while j < i
            invariant
                j <= i < candidates.len(),
                identities.len() == candidates.len(),
                forall|j: int|
                    0 <= j < identities.len() ==> (#[trigger] identities[j])@ == identity_of(
                        all[j].1,
                    ),
                seen == exists|e: int|
                    0 <= e < j && identity_of(#[trigger] all[e].1) == identity_of(all[i as int].1),
            decreases i - j,
        {
            if same_chars(&identities[j], &identities[i]) {
                seen = true;
            }
            j += 1;
        }
        let context = replace_char(&chars_of(candidates[i].0.as_str()), ' ', '_');
        let names_filtered = match rule {
            LinkFilter::Markup => contains_text(&context, &filtered),
            LinkFilter::Title => same_chars(&context, &filtered),
        };
        proof {
            assert(seen == seen_before(all, i as int));
            assert(names_filtered == filtered_by(rule, all[i as int].0));
            lemma_selected_at_prefix(all, i + 1, i as int, rule);
            assert(all.subrange(0, i + 1).drop_last() =~= all.subrange(0, i as int));
        }
        if !seen && !names_filtered {
            let ghost before = chosen.deep_view();
            proof {
                lemma_identity_is_normal(all[i as int].1);
            }
            chosen.push(string_of(&identities[i]));
            assert(chosen.deep_view() =~= before.push(identity_of(all[i as int].1)));
        }
        i += 1;
    }
    assert(all.subrange(0, candidates.len() as int) =~= all);
    chosen
}

} // verus!
