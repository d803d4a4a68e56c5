//! Gateway rules and the list of those that are installed.
//!
//! A rule is a directed pair of interface names: frames seen on the first
//! are forwarded to the second. The host holds each rule twice, once per
//! frame format, so a rule counts as installed only when both commands were
//! confirmed, and as removed only when both removals were.

use crate::host::OsCommand;
use crate::host::OsCommandView;
use vstd::prelude::*;

verus! {

/// A rule as a value: source interface, then destination interface.
pub type RuleView = (Seq<char>, Seq<char>);

/// The rules of `wanted` that are not yet in `active`, each once, in the
/// order in which `wanted` first names them.
pub open spec fn missing(active: Seq<RuleView>, wanted: Seq<RuleView>) -> Seq<RuleView>
    decreases wanted.len(),
{
    if wanted.len() == 0 {
        Seq::empty()
    } else {
        let earlier = missing(active, wanted.drop_last());
        let r = wanted.last();
        if active.contains(r) || earlier.contains(r) {
            earlier
        } else {
            earlier.push(r)
        }
    }
}

/// The rules of `unwanted` that are in `active`, each once, in the order in
/// which `unwanted` first names them.
pub open spec fn present(active: Seq<RuleView>, unwanted: Seq<RuleView>) -> Seq<RuleView>
    decreases unwanted.len(),
{
    if unwanted.len() == 0 {
        Seq::empty()
    } else {
        let earlier = present(active, unwanted.drop_last());
        let r = unwanted.last();
        if active.contains(r) && !earlier.contains(r) {
            earlier.push(r)
        } else {
            earlier
        }
    }
}

/// `active` without the rule `r`, the others in their order.
pub open spec fn forget(active: Seq<RuleView>, r: RuleView) -> Seq<RuleView>
    decreases active.len(),
{
    if active.len() == 0 {
        active
    } else {
        let rest = forget(active.drop_last(), r);
        if active.last() == r {
            rest
        } else {
            rest.push(active.last())
        }
    }
}

/// `active` without any rule of `gone`, the others in their order.
pub open spec fn forget_all(active: Seq<RuleView>, gone: Seq<RuleView>) -> Seq<RuleView>
    decreases gone.len(),
{
    if gone.len() == 0 {
        active
    } else {
        forget(forget_all(active, gone.drop_last()), gone.last())
    }
}

/// The commands that install `rules`: for each rule in turn, the one for
/// standard frames and then the one for extended frames.
pub open spec fn install_commands(rules: Seq<RuleView>) -> Seq<OsCommandView> {
    Seq::new(
        2 * rules.len(),
        |i: int|
            OsCommandView::InstallForwardRule {
                src: rules[i / 2].0,
                dst: rules[i / 2].1,
                extended: i % 2 == 1,
            },
    )
}

/// The commands that remove `rules`: for each rule in turn, the one for
/// standard frames and then the one for extended frames.
pub open spec fn remove_commands(rules: Seq<RuleView>) -> Seq<OsCommandView> {
    Seq::new(
        2 * rules.len(),
        |i: int|
            OsCommandView::RemoveForwardRule {
                src: rules[i / 2].0,
                dst: rules[i / 2].1,
                extended: i % 2 == 1,
            },
    )
}

/// How many of `planned` rules are settled once the host has confirmed the
/// first `done` commands of their plan: a rule takes two commands, and one
/// confirmed command of a pair settles nothing.
pub open spec fn settled(done: nat, planned: nat) -> nat {
    if done / 2 < planned {
        done / 2
    } else {
        planned
    }
}

/// `missing` holds each rule once, and exactly the wanted rules that are
/// not active.
pub proof fn lemma_missing(active: Seq<RuleView>, wanted: Seq<RuleView>)
    ensures
        missing(active, wanted).no_duplicates(),
        forall|r: RuleView| #[trigger]
            missing(active, wanted).contains(r) <==> wanted.contains(r) && !active.contains(r),
    decreases wanted.len(),
{
    if wanted.len() > 0 {
        let shorter = wanted.drop_last();
        let earlier = missing(active, shorter);
        let last = wanted.last();
        lemma_missing(active, shorter);
        assert forall|r: RuleView| #[trigger]
            missing(active, wanted).contains(r) <==> wanted.contains(r) && !active.contains(
                r,
            ) by {
            if wanted.contains(r) {
                let i = choose|i: int| 0 <= i < wanted.len() && wanted[i] == r;
                if i < shorter.len() {
                    assert(shorter[i] == r);
                }
            }
            if shorter.contains(r) {
                let i = choose|i: int| 0 <= i < shorter.len() && shorter[i] == r;
                assert(wanted[i] == r);
            }
            assert(wanted[wanted.len() - 1] == last);
            if !(active.contains(last) || earlier.contains(last)) {
                assert(earlier.push(last)[earlier.len() as int] == last);
                if earlier.contains(r) {
                    let i = choose|i: int| 0 <= i < earlier.len() && earlier[i] == r;
                    assert(earlier.push(last)[i] == r);
                }
            }
        }
    }
}

/// Where no wanted rule is active and none is named twice, all of them are
/// missing, in their order.
pub proof fn lemma_missing_all(active: Seq<RuleView>, wanted: Seq<RuleView>)
    requires
        wanted.no_duplicates(),
        forall|i: int| 0 <= i < wanted.len() ==> !active.contains(#[trigger] wanted[i]),
    ensures
        missing(active, wanted) == wanted,
    decreases wanted.len(),
{
    if wanted.len() > 0 {
        let shorter = wanted.drop_last();
        lemma_missing_all(active, shorter);
        assert(!shorter.contains(wanted.last()));
        assert(shorter.push(wanted.last()) =~= wanted);
    } else {
        assert(wanted =~= Seq::empty());
    }
}

/// Adding some of the missing rules keeps every rule listed once.
pub proof fn lemma_track_keeps_unique(active: Seq<RuleView>, wanted: Seq<RuleView>, k: int)
    requires
        active.no_duplicates(),
        0 <= k <= missing(active, wanted).len(),
    ensures
        (active + missing(active, wanted).take(k)).no_duplicates(),
{
    let more = missing(active, wanted);
    let all = active + more.take(k);
    lemma_missing(active, wanted);
    assert forall|i: int, j: int| 0 <= i < all.len() && 0 <= j < all.len() && i != j implies all[i]
        != all[j] by {
        if i >= active.len() {
            assert(more.contains(more[i - active.len()]));
        }
        if j >= active.len() {
            assert(more.contains(more[j - active.len()]));
        }
    }
}

/// `present` holds each rule once, and exactly the unwanted rules that are
/// active.
pub proof fn lemma_present(active: Seq<RuleView>, unwanted: Seq<RuleView>)
    ensures
        present(active, unwanted).no_duplicates(),
        forall|r: RuleView| #[trigger]
            present(active, unwanted).contains(r) <==> unwanted.contains(r) && active.contains(r),
    decreases unwanted.len(),
{
    if unwanted.len() > 0 {
        let shorter = unwanted.drop_last();
        let earlier = present(active, shorter);
        let last = unwanted.last();
        lemma_present(active, shorter);
        assert forall|r: RuleView| #[trigger]
            present(active, unwanted).contains(r) <==> unwanted.contains(r) && active.contains(
                r,
            ) by {
            if unwanted.contains(r) {
                let i = choose|i: int| 0 <= i < unwanted.len() && unwanted[i] == r;
                if i < shorter.len() {
                    assert(shorter[i] == r);
                }
            }
            if shorter.contains(r) {
                let i = choose|i: int| 0 <= i < shorter.len() && shorter[i] == r;
                assert(unwanted[i] == r);
            }
            assert(unwanted[unwanted.len() - 1] == last);
            if active.contains(last) && !earlier.contains(last) {
                assert(earlier.push(last)[earlier.len() as int] == last);
                if earlier.contains(r) {
                    let i = choose|i: int| 0 <= i < earlier.len() && earlier[i] == r;
                    assert(earlier.push(last)[i] == r);
                }
            }
        }
    }
}

/// Where every unwanted rule is active and none is named twice, all of
/// them are present, in their order.
pub proof fn lemma_present_all(active: Seq<RuleView>, unwanted: Seq<RuleView>)
    requires
        unwanted.no_duplicates(),
        forall|i: int| 0 <= i < unwanted.len() ==> active.contains(#[trigger] unwanted[i]),
    ensures
        present(active, unwanted) == unwanted,
    decreases unwanted.len(),
{
    if unwanted.len() > 0 {
        let shorter = unwanted.drop_last();
        lemma_present_all(active, shorter);
        assert(!shorter.contains(unwanted.last()));
        assert(shorter.push(unwanted.last()) =~= unwanted);
    } else {
        assert(unwanted =~= Seq::empty());
    }
}

/// Forgetting a rule removes it and nothing else, and keeps the others in
/// place.
pub proof fn lemma_forget(active: Seq<RuleView>, r: RuleView)
    ensures
        forall|x: RuleView| #[trigger]
            forget(active, r).contains(x) <==> active.contains(x) && x != r,
        active.no_duplicates() ==> forget(active, r).no_duplicates(),
        forget(active, r).len() <= active.len(),
        !active.contains(r) ==> forget(active, r) == active,
        active.no_duplicates() && active.contains(r) ==> forget(active, r).len() + 1
            == active.len(),
    decreases active.len(),
{
    if active.len() > 0 {
        let shorter = active.drop_last();
        let rest = forget(shorter, r);
        let last = active.last();
        lemma_forget(shorter, r);
        assert(active[active.len() - 1] == last);
        assert forall|x: RuleView| #[trigger]
            forget(active, r).contains(x) <==> active.contains(x) && x != r by {
            if active.contains(x) {
                let i = choose|i: int| 0 <= i < active.len() && active[i] == x;
                if i < shorter.len() {
                    assert(shorter[i] == x);
                }
            }
            if shorter.contains(x) {
                let i = choose|i: int| 0 <= i < shorter.len() && shorter[i] == x;
                assert(active[i] == x);
            }
            if last != r {
                assert(rest.push(last)[rest.len() as int] == last);
                if rest.contains(x) {
                    let i = choose|i: int| 0 <= i < rest.len() && rest[i] == x;
                    assert(rest.push(last)[i] == x);
                }
            }
        }
        if active.no_duplicates() {
            assert(shorter.no_duplicates());
            assert(!shorter.contains(last)) by {
                if shorter.contains(last) {
                    let i = choose|i: int| 0 <= i < shorter.len() && shorter[i] == last;
                    assert(active[i] == active[active.len() - 1]);
                }
            }
            if last != r {
                assert(!rest.contains(last));
            }
        }
        if !active.contains(r) {
            assert(!shorter.contains(r)) by {
                if shorter.contains(r) {
                    let i = choose|i: int| 0 <= i < shorter.len() && shorter[i] == r;
                    assert(active[i] == r);
                }
            }
            assert(shorter.push(last) =~= active);
        }
        if active.no_duplicates() && active.contains(r) {
            if last != r {
                let i = choose|i: int| 0 <= i < active.len() && active[i] == r;
                assert(shorter[i] == r);
            }
        }
    }
}

/// Removing the entry at the place of a rule is forgetting that rule, where
/// every rule is active once.
pub proof fn lemma_remove_forgets(active: Seq<RuleView>, i: int)
    requires
        active.no_duplicates(),
        0 <= i < active.len(),
    ensures
        active.remove(i) == forget(active, active[i]),
    decreases active.len(),
{
    let r = active[i];
    let shorter = active.drop_last();
    if i == active.len() - 1 {
        assert(!shorter.contains(r)) by {
            if shorter.contains(r) {
                let j = choose|j: int| 0 <= j < shorter.len() && shorter[j] == r;
                assert(active[j] == active[i]);
            }
        }
        lemma_forget(shorter, r);
        assert(active.remove(i) =~= shorter);
    } else {
        lemma_remove_forgets(shorter, i);
        assert(shorter[i] == r);
        assert(active.remove(i) =~= shorter.remove(i).push(active.last()));
    }
}

/// Forgetting several rules removes exactly those, and keeps every other
/// rule active once.
pub proof fn lemma_forget_all(active: Seq<RuleView>, gone: Seq<RuleView>)
    ensures
        forall|x: RuleView| #[trigger]
            forget_all(active, gone).contains(x) <==> active.contains(x) && !gone.contains(x),
        active.no_duplicates() ==> forget_all(active, gone).no_duplicates(),
    decreases gone.len(),
{
    if gone.len() > 0 {
        let shorter = gone.drop_last();
        let last = gone.last();
        lemma_forget_all(active, shorter);
        lemma_forget(forget_all(active, shorter), last);
        assert(gone[gone.len() - 1] == last);
        assert forall|x: RuleView| #[trigger]
            forget_all(active, gone).contains(x) <==> active.contains(x) && !gone.contains(
                x,
            ) by {
            if gone.contains(x) {
                let i = choose|i: int| 0 <= i < gone.len() && gone[i] == x;
                if i < shorter.len() {
                    assert(shorter[i] == x);
                }
            }
            if shorter.contains(x) {
                let i = choose|i: int| 0 <= i < shorter.len() && shorter[i] == x;
                assert(gone[i] == x);
            }
        }
    }
}

/// Forgetting rules that are all active, each named once, shortens the
/// list by their number.
pub proof fn lemma_forget_all_len(active: Seq<RuleView>, gone: Seq<RuleView>)
    requires
        active.no_duplicates(),
        gone.no_duplicates(),
        forall|i: int| 0 <= i < gone.len() ==> active.contains(#[trigger] gone[i]),
    ensures
        forget_all(active, gone).len() + gone.len() == active.len(),
    decreases gone.len(),
{
    if gone.len() > 0 {
        let shorter = gone.drop_last();
        let last = gone.last();
        assert forall|i: int| 0 <= i < shorter.len() implies active.contains(
            #[trigger] shorter[i],
        ) by {
            assert(shorter[i] == gone[i]);
        }
        lemma_forget_all_len(active, shorter);
        lemma_forget_all(active, shorter);
        assert(active.contains(gone[gone.len() - 1]));
        assert(!shorter.contains(last)) by {
            if shorter.contains(last) {
                let i = choose|i: int| 0 <= i < shorter.len() && shorter[i] == last;
                assert(gone[i] == gone[gone.len() - 1]);
            }
        }
        lemma_forget(forget_all(active, shorter), last);
    }
}

/// A list without members is empty.
pub proof fn lemma_no_members(s: Seq<RuleView>)
    requires
        forall|r: RuleView| !s.contains(r),
    ensures
        s =~= Seq::empty(),
{
    if s.len() > 0 {
        assert(s.contains(s[0]));
    }
}

/// Once the first `k` of the missing rules were added, the rules that are
/// missing are the rest, in the same order.
pub proof fn lemma_missing_resumes(active: Seq<RuleView>, wanted: Seq<RuleView>, k: int)
    requires
        0 <= k <= missing(active, wanted).len(),
    ensures
        missing(active + missing(active, wanted).take(k), wanted) == missing(active, wanted).skip(
            k,
        ),
    decreases wanted.len(),
{
    let plan = missing(active, wanted);
    let more = active + plan.take(k);
    lemma_missing(active, wanted);
    lemma_missing(more, wanted);
    if k == plan.len() {
        assert forall|r: RuleView| !missing(more, wanted).contains(r) by {
            if wanted.contains(r) && !active.contains(r) {
                assert(plan.contains(r));
                let a = choose|a: int| 0 <= a < plan.len() && plan[a] == r;
                assert(more[active.len() + a] == r);
            }
            if active.contains(r) {
                let a = choose|a: int| 0 <= a < active.len() && active[a] == r;
                assert(more[a] == r);
            }
        }
        lemma_no_members(missing(more, wanted));
        assert(plan.skip(k) =~= Seq::empty());
    } else {
        let shorter = wanted.drop_last();
        let last = wanted.last();
        let before = missing(active, shorter);
        lemma_missing(active, shorter);
        if active.contains(last) || before.contains(last) {
            assert(plan == before);
            lemma_missing_resumes(active, shorter, k);
            let resumed = missing(more, shorter);
            assert(resumed == before.skip(k));
            if active.contains(last) {
                let a = choose|a: int| 0 <= a < active.len() && active[a] == last;
                assert(more[a] == last);
            } else {
                let a = choose|a: int| 0 <= a < before.len() && before[a] == last;
                if a < k {
                    assert(more[active.len() + a] == last);
                } else {
                    assert(resumed[a - k] == last);
                }
            }
            assert(more.contains(last) || resumed.contains(last));
        } else {
            assert(plan == before.push(last));
            assert(plan.take(k) =~= before.take(k));
            lemma_missing_resumes(active, shorter, k);
            let resumed = missing(more, shorter);
            assert(resumed == before.skip(k));
            assert(!more.contains(last)) by {
                if more.contains(last) {
                    let a = choose|a: int| 0 <= a < more.len() && more[a] == last;
                    if a < active.len() {
                        assert(active[a] == last);
                    } else {
                        assert(before[a - active.len()] == last);
                    }
                }
            }
            assert(!resumed.contains(last)) by {
                if resumed.contains(last) {
                    let a = choose|a: int| 0 <= a < resumed.len() && resumed[a] == last;
                    assert(before[a + k] == last);
                }
            }
            assert(resumed.push(last) =~= plan.skip(k));
        }
    }
}

/// Once the first `k` of the present rules were forgotten, the rules that
/// are present are the rest, in the same order.
pub proof fn lemma_present_resumes(active: Seq<RuleView>, unwanted: Seq<RuleView>, k: int)
    requires
        0 <= k <= present(active, unwanted).len(),
    ensures
        present(forget_all(active, present(active, unwanted).take(k)), unwanted) == present(
            active,
            unwanted,
        ).skip(k),
    decreases unwanted.len(),
{
    let plan = present(active, unwanted);
    let gone = plan.take(k);
    let left = forget_all(active, gone);
    lemma_present(active, unwanted);
    lemma_present(left, unwanted);
    lemma_forget_all(active, gone);
    if k == plan.len() {
        assert(gone =~= plan);
        lemma_no_members(present(left, unwanted));
        assert(plan.skip(k) =~= Seq::empty());
    } else {
        let shorter = unwanted.drop_last();
        let last = unwanted.last();
        let before = present(active, shorter);
        lemma_present(active, shorter);
        if active.contains(last) && !before.contains(last) {
            assert(plan == before.push(last));
            assert(plan.take(k) =~= before.take(k));
            lemma_present_resumes(active, shorter, k);
            let resumed = present(left, shorter);
            assert(resumed == before.skip(k));
            assert(!gone.contains(last)) by {
                if gone.contains(last) {
                    let a = choose|a: int| 0 <= a < gone.len() && gone[a] == last;
                    assert(before[a] == last);
                }
            }
            assert(left.contains(last));
            assert(!resumed.contains(last)) by {
                if resumed.contains(last) {
                    let a = choose|a: int| 0 <= a < resumed.len() && resumed[a] == last;
                    assert(before[a + k] == last);
                }
            }
            assert(resumed.push(last) =~= plan.skip(k));
        } else {
            assert(plan == before);
            lemma_present_resumes(active, shorter, k);
            let resumed = present(left, shorter);
            assert(resumed == before.skip(k));
            if active.contains(last) {
                let a = choose|a: int| 0 <= a < before.len() && before[a] == last;
                if a < k {
                    assert(gone[a] == last);
                    assert(!left.contains(last));
                } else {
                    assert(resumed[a - k] == last);
                }
            } else {
                assert(!left.contains(last));
            }
            assert(!left.contains(last) || resumed.contains(last));
        }
    }
}

/// Forgetting two lists of rules one after the other is forgetting both.
pub proof fn lemma_forget_all_append(
    active: Seq<RuleView>,
    first: Seq<RuleView>,
    second: Seq<RuleView>,
)
    ensures
        forget_all(forget_all(active, first), second) == forget_all(active, first + second),
    decreases second.len(),
{
    if second.len() == 0 {
        assert(first + second =~= first);
    } else {
        lemma_forget_all_append(active, first, second.drop_last());
        assert((first + second).drop_last() =~= first + second.drop_last());
        assert((first + second).last() == second.last());
    }
}

/// Finds the place of the rule from `src` to `dst` in `rules`.
pub fn rule_position(rules: &Vec<(String, String)>, src: &String, dst: &String) -> (r: Option<
    usize,
>)
    ensures
        match r {
            Some(i) => i < rules.len() && rules.deep_view()[i as int] == (src@, dst@),
            None => !rules.deep_view().contains((src@, dst@)),
        },
{
    let mut i: usize = 0;
    while i < rules.len()
        invariant
            i <= rules.len(),
            forall|j: int| 0 <= j < i ==> rules.deep_view()[j] != (src@, dst@),
        decreases rules.len() - i,
    {
        if rules[i].0 == *src && rules[i].1 == *dst {
            return Some(i);
        }
        i = i + 1;
    }
    None
}

/// Picks from `wanted` the rules that `active` lacks.
pub fn missing_rules(active: &Vec<(String, String)>, wanted: &Vec<(String, String)>) -> (r: Vec<
    (String, String),
>)
    ensures
        r.deep_view() == missing(active.deep_view(), wanted.deep_view()),
{
    let mut r: Vec<(String, String)> = Vec::new();
    let mut i: usize = 0;
    assert(wanted.deep_view().take(0) =~= Seq::empty());
    assert(r.deep_view() =~= Seq::empty());
    while i < wanted.len()
        invariant
            i <= wanted.len(),
            r.deep_view() == missing(active.deep_view(), wanted.deep_view().take(i as int)),
        decreases wanted.len() - i,
    {
        let ghost before = r.deep_view();
        let ghost upto = wanted.deep_view().take(i as int + 1);
        assert(upto.drop_last() =~= wanted.deep_view().take(i as int));
        assert(upto.last() == wanted.deep_view()[i as int]);
        let known = rule_position(active, &wanted[i].0, &wanted[i].1);
        let planned = rule_position(&r, &wanted[i].0, &wanted[i].1);
        if known.is_none() && planned.is_none() {
            r.push((wanted[i].0.clone(), wanted[i].1.clone()));
            assert(r.deep_view() =~= before.push(wanted.deep_view()[i as int]));
        }
        i = i + 1;
    }
    assert(wanted.deep_view().take(wanted.len() as int) =~= wanted.deep_view());
    r
}

/// Picks from `unwanted` the rules that `active` holds.
pub fn present_rules(active: &Vec<(String, String)>, unwanted: &Vec<(String, String)>) -> (r:
    Vec<(String, String)>)
    ensures
        r.deep_view() == present(active.deep_view(), unwanted.deep_view()),
{
    let mut r: Vec<(String, String)> = Vec::new();
    let mut i: usize = 0;
    assert(unwanted.deep_view().take(0) =~= Seq::empty());
    assert(r.deep_view() =~= Seq::empty());
    while i < unwanted.len()
        invariant
            i <= unwanted.len(),
            r.deep_view() == present(active.deep_view(), unwanted.deep_view().take(i as int)),
        decreases unwanted.len() - i,
    {
        let ghost before = r.deep_view();
        let ghost upto = unwanted.deep_view().take(i as int + 1);
        assert(upto.drop_last() =~= unwanted.deep_view().take(i as int));
        assert(upto.last() == unwanted.deep_view()[i as int]);
        let known = rule_position(active, &unwanted[i].0, &unwanted[i].1);
        let planned = rule_position(&r, &unwanted[i].0, &unwanted[i].1);
        if known.is_some() && planned.is_none() {
            r.push((unwanted[i].0.clone(), unwanted[i].1.clone()));
            assert(r.deep_view() =~= before.push(unwanted.deep_view()[i as int]));
        }
        i = i + 1;
    }
    assert(unwanted.deep_view().take(unwanted.len() as int) =~= unwanted.deep_view());
    r
}

/// Lists the commands that install `rules`, two for each.
pub fn install_plan(rules: &Vec<(String, String)>) -> (r: Vec<OsCommand>)
    ensures
        r.deep_view() == install_commands(rules.deep_view()),
{
    let mut r: Vec<OsCommand> = Vec::new();
    let mut i: usize = 0;
    assert(r.deep_view() =~= install_commands(rules.deep_view().take(0)));
    while i < rules.len()
        invariant
            i <= rules.len(),
            r.deep_view() == install_commands(rules.deep_view().take(i as int)),
        decreases rules.len() - i,
    {
        let ghost before = r.deep_view();
        let ghost shorter = r@;
        r.push(
            OsCommand::InstallForwardRule {
                src: rules[i].0.clone(),
                dst: rules[i].1.clone(),
                extended: false,
            },
        );
        r.push(
            OsCommand::InstallForwardRule {
                src: rules[i].0.clone(),
                dst: rules[i].1.clone(),
                extended: true,
            },
        );
        proof {
            let target = install_commands(rules.deep_view().take(i as int + 1));
            assert forall|j: int| 0 <= j < target.len() implies r.deep_view()[j] == target[j] by {
                assert(before.len() == 2 * i);
                assert(r@.len() == 2 * i + 2);
                if j < 2 * i {
                    assert(r@[j] == shorter[j]);
                    assert(r.deep_view()[j] == before[j]);
                    assert(rules.deep_view().take(i as int)[j / 2] == rules.deep_view().take(
                        i as int + 1,
                    )[j / 2]);
                }
            }
            assert(rules.deep_view().take(i as int + 1).len() == i + 1);
            assert(before.len() == 2 * i);
            assert(r@.len() == shorter.len() + 2);
            assert(r.deep_view().len() == target.len());
            assert(r.deep_view() =~= target);
        }
        i = i + 1;
    }
    assert(rules.deep_view().take(rules.len() as int) =~= rules.deep_view());
    r
}

/// Lists the commands that remove `rules`, two for each.
pub fn remove_plan(rules: &Vec<(String, String)>) -> (r: Vec<OsCommand>)
    ensures
        r.deep_view() == remove_commands(rules.deep_view()),
{
    let mut r: Vec<OsCommand> = Vec::new();
    let mut i: usize = 0;
    assert(r.deep_view() =~= remove_commands(rules.deep_view().take(0)));
    while i < rules.len()
        invariant
            i <= rules.len(),
            r.deep_view() == remove_commands(rules.deep_view().take(i as int)),
        decreases rules.len() - i,
    {
        let ghost before = r.deep_view();
        let ghost shorter = r@;
        r.push(
            OsCommand::RemoveForwardRule {
                src: rules[i].0.clone(),
                dst: rules[i].1.clone(),
                extended: false,
            },
        );
        r.push(
            OsCommand::RemoveForwardRule {
                src: rules[i].0.clone(),
                dst: rules[i].1.clone(),
                extended: true,
            },
        );
        proof {
            let target = remove_commands(rules.deep_view().take(i as int + 1));
            assert forall|j: int| 0 <= j < target.len() implies r.deep_view()[j] == target[j] by {
                assert(before.len() == 2 * i);
                assert(r@.len() == 2 * i + 2);
                if j < 2 * i {
                    assert(r@[j] == shorter[j]);
                    assert(r.deep_view()[j] == before[j]);
                    assert(rules.deep_view().take(i as int)[j / 2] == rules.deep_view().take(
                        i as int + 1,
                    )[j / 2]);
                }
            }
            assert(rules.deep_view().take(i as int + 1).len() == i + 1);
            assert(before.len() == 2 * i);
            assert(r@.len() == shorter.len() + 2);
            assert(r.deep_view().len() == target.len());
            assert(r.deep_view() =~= target);
        }
        i = i + 1;
    }
    assert(rules.deep_view().take(rules.len() as int) =~= rules.deep_view());
    r
}

/// Counts the rules that `done` confirmed commands settle, out of
/// `planned`.
pub fn settled_count(done: usize, planned: usize) -> (r: usize)
    ensures
        r == settled(done as nat, planned as nat),
{
    if done / 2 < planned {
        done / 2
    } else {
        planned
    }
}

} // verus!
