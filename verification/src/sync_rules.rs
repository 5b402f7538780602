//! The decisions of a member sync: which roles a member ends up with, which
//! part of a nickname the member wrote by hand, and whether the nickname is
//! to be changed. Rendering templates and evaluating rule conditions happen
//! outside; their results come in as plain values.

use vstd::prelude::*;
use crate::review_votes::{with, without, differs_from, contains_id, remove_id};
use crate::text::{chars_of, str_eq, has_prefix, trim_end, trimmed, trim_chars, string_of, seq_eq, is_whitespace};

verus! {

/// The longest nickname the platform accepts.
pub const NICKNAME_MAX_LEN: usize = 32;

/// Which of a guild's two configured status roles a job swaps.
#[derive(Clone, Copy, Debug, PartialEq, Eq, Structural)]
pub enum RoleConfigField {
    Link,
    Unlinked,
}

/// The field a job payload names: `link` or `unlinked`.
pub open spec fn role_field_named(v: Seq<char>) -> Option<RoleConfigField> {
    if v == "link"@ {
        Some(RoleConfigField::Link)
    } else if v == "unlinked"@ {
        Some(RoleConfigField::Unlinked)
    } else {
        None
    }
}

impl RoleConfigField {
    pub fn parse(value: &str) -> (r: Option<RoleConfigField>)
        ensures
            r == role_field_named(value@),
    {
        if str_eq(value, "link") {
            Some(RoleConfigField::Link)
        } else if str_eq(value, "unlinked") {
            Some(RoleConfigField::Unlinked)
        } else {
            None
        }
    }
}

/// One rule, already evaluated: its role and whether its condition held.
pub open spec fn rule_step(roles: Seq<u64>, rule: (u64, bool)) -> Seq<u64> {
    if rule.1 {
        with(roles, rule.0)
    } else {
        without(roles, rule.0)
    }
}

/// The rules applied in order.
pub open spec fn apply_rules(roles: Seq<u64>, rules: Seq<(u64, bool)>) -> Seq<u64>
    decreases rules.len(),
{
    if rules.len() == 0 {
        roles
    } else {
        rule_step(apply_rules(roles, rules.drop_last()), rules.last())
    }
}

/// `s` with `r` added, where a role is configured.
pub open spec fn with_opt(s: Seq<u64>, r: Option<u64>) -> Seq<u64> {
    match r {
        Some(x) => with(s, x),
        None => s,
    }
}

/// `s` without `r`, where a role is configured.
pub open spec fn without_opt(s: Seq<u64>, r: Option<u64>) -> Seq<u64> {
    match r {
        Some(x) => without(s, x),
        None => s,
    }
}

/// The roles of a linked member: the link role added, the unlinked role
/// removed, then each rule adding its role where it matched and removing
/// it where it did not.
pub open spec fn linked_roles(
    current: Seq<u64>,
    link: Option<u64>,
    unlinked: Option<u64>,
    rules: Seq<(u64, bool)>,
) -> Seq<u64> {
    apply_rules(without_opt(with_opt(current, link), unlinked), rules)
}

/// `roles` without any of `ids`, removed in order.
pub open spec fn strip_all(roles: Seq<u64>, ids: Seq<u64>) -> Seq<u64>
    decreases ids.len(),
{
    if ids.len() == 0 {
        roles
    } else {
        without(strip_all(roles, ids.drop_last()), ids.last())
    }
}

/// The roles of a member with no linked account: the unlinked role added,
/// the link role removed, and every rule's role removed.
pub open spec fn unlinked_roles(
    current: Seq<u64>,
    link: Option<u64>,
    unlinked: Option<u64>,
    rule_roles: Seq<u64>,
) -> Seq<u64> {
    strip_all(without_opt(with_opt(current, unlinked), link), rule_roles)
}

/// The roles a member is to have, and whether they differ from the present ones.
pub struct RolePlan {
    pub roles: Vec<u64>,
    pub changed: bool,
}

fn copy_ids(v: &Vec<u64>) -> (r: Vec<u64>)
    ensures
        r@ == v@,
{
    let mut r: Vec<u64> = Vec::new();
    let mut i: usize = 0;
    while i < v.len()
        invariant
            i <= v.len(),
            r@ == v@.take(i as int),
        decreases v.len() - i,
    {
        r.push(v[i]);
        assert(v@.take(i + 1) == v@.take(i as int).push(v@[i as int]));
        i = i + 1;
    }
    assert(v@.take(v.len() as int) == v@);
    r
}

fn added(v: &Vec<u64>, x: u64) -> (r: Vec<u64>)
    ensures
        r@ == with(v@, x),
{
    let mut r = copy_ids(v);
    if !contains_id(v, x) {
        r.push(x);
    }
    r
}

fn added_opt(v: &Vec<u64>, x: Option<u64>) -> (r: Vec<u64>)
    ensures
        r@ == with_opt(v@, x),
{
    match x {
        Some(id) => added(v, id),
        None => copy_ids(v),
    }
}

fn removed_opt(v: &Vec<u64>, x: Option<u64>) -> (r: Vec<u64>)
    ensures
        r@ == without_opt(v@, x),
{
    match x {
        Some(id) => remove_id(v, id),
        None => copy_ids(v),
    }
}

/// Whether two role lists are equal, order included.
pub fn same_ids(a: &Vec<u64>, b: &Vec<u64>) -> (r: bool)
    ensures
        r == (a@ == b@),
{
    if a.len() != b.len() {
        return false;
    }
    let mut i: usize = 0;
    while i < a.len()
        invariant
            a.len() == b.len(),
            i <= a.len(),
            forall|j: int| 0 <= j < i ==> a@[j] == b@[j],
        decreases a.len() - i,
    {
        if a[i] != b[i] {
            return false;
        }
        i = i + 1;
    }
    assert(a@ =~= b@);
    true
}

/// The roles of a linked member after a sync, given the outcome of each
/// role rule as `(role, matched)` in the guild's order.
pub fn plan_linked_roles(
    current: &Vec<u64>,
    link: Option<u64>,
    unlinked: Option<u64>,
    rules: &Vec<(u64, bool)>,
) -> (p: RolePlan)
    ensures
        p.roles@ == linked_roles(current@, link, unlinked, rules@),
        p.changed == (p.roles@ != current@),
{
    let first = added_opt(current, link);
    let mut roles = removed_opt(&first, unlinked);
    let ghost start = roles@;
    let mut i: usize = 0;
    assert(rules@.take(0) == Seq::<(u64, bool)>::empty());
    while i < rules.len()
        invariant
            i <= rules.len(),
            start == without_opt(with_opt(current@, link), unlinked),
            roles@ == apply_rules(start, rules@.take(i as int)),
        decreases rules.len() - i,
    {
        let (role, matched) = rules[i];
        assert(rules@.take(i + 1).drop_last() == rules@.take(i as int));
        assert(rules@.take(i + 1).last() == rules@[i as int]);
        if matched {
            roles = added(&roles, role);
        } else {
            roles = remove_id(&roles, role);
        }
        i = i + 1;
    }
    assert(rules@.take(rules.len() as int) == rules@);
    let changed = !same_ids(&roles, current);
    RolePlan { roles, changed }
}

/// The roles of a member with no linked account after a sync, given the
/// roles of the guild's rules in order.
pub fn plan_unlinked_roles(
    current: &Vec<u64>,
    link: Option<u64>,
    unlinked: Option<u64>,
    rule_roles: &Vec<u64>,
) -> (p: RolePlan)
    ensures
        p.roles@ == unlinked_roles(current@, link, unlinked, rule_roles@),
        p.changed == (p.roles@ != current@),
{
    let first = added_opt(current, unlinked);
    let mut roles = removed_opt(&first, link);
    let ghost start = roles@;
    let mut i: usize = 0;
    assert(rule_roles@.take(0) == Seq::<u64>::empty());
    while i < rule_roles.len()
        invariant
            i <= rule_roles.len(),
            start == without_opt(with_opt(current@, unlinked), link),
            roles@ == strip_all(start, rule_roles@.take(i as int)),
        decreases rule_roles.len() - i,
    {
        assert(rule_roles@.take(i + 1).drop_last() == rule_roles@.take(i as int));
        assert(rule_roles@.take(i + 1).last() == rule_roles@[i as int]);
        roles = remove_id(&roles, rule_roles[i]);
        i = i + 1;
    }
    assert(rule_roles@.take(rule_roles.len() as int) == rule_roles@);
    let changed = !same_ids(&roles, current);
    RolePlan { roles, changed }
}

/// Whether `r` is held after the rules, given whether it was held before:
/// the last rule for `r` decides, and a role no rule names keeps its state.
pub open spec fn rule_fate(rules: Seq<(u64, bool)>, r: u64, before: bool) -> bool
    decreases rules.len(),
{
    if rules.len() == 0 {
        before
    } else if rules.last().0 == r {
        rules.last().1
    } else {
        rule_fate(rules.drop_last(), r, before)
    }
}

/// Whether `r` is held once the link role is added and the unlinked role removed.
pub open spec fn held_before_rules(current: Seq<u64>, link: Option<u64>, unlinked: Option<u64>, r: u64) -> bool {
    if unlinked == Some(r) {
        false
    } else if link == Some(r) {
        true
    } else {
        current.contains(r)
    }
}

proof fn lemma_with_contains(s: Seq<u64>, x: u64, r: u64)
    ensures
        with(s, x).contains(r) == (r == x || s.contains(r)),
{
    if !s.contains(x) {
        if r == x {
            assert(s.push(x)[s.len() as int] == x);
        } else if s.contains(r) {
            let i = choose|i: int| 0 <= i < s.len() && s[i] == r;
            assert(s.push(x)[i] == r);
        } else {
            assert forall|i: int| 0 <= i < s.push(x).len() implies s.push(x)[i] != r by {
                if i < s.len() {
                    assert(s.push(x)[i] == s[i]);
                }
            }
        }
    }
}

proof fn lemma_without_contains(s: Seq<u64>, x: u64, r: u64)
    ensures
        without(s, x).contains(r) == (r != x && s.contains(r)),
{
    if r != x && s.contains(r) {
        let i = choose|i: int| 0 <= i < s.len() && s[i] == r;
        s.lemma_filter_contains(differs_from(x), i);
    }
    if without(s, x).contains(r) {
        let i = choose|i: int| 0 <= i < without(s, x).len() && without(s, x)[i] == r;
        s.lemma_filter_pred(differs_from(x), i);
        s.lemma_filter_contains_rev(differs_from(x), r);
    }
}

proof fn lemma_apply_rules_contains(roles: Seq<u64>, rules: Seq<(u64, bool)>, r: u64)
    ensures
        apply_rules(roles, rules).contains(r) == rule_fate(rules, r, roles.contains(r)),
    decreases rules.len(),
{
    if rules.len() > 0 {
        lemma_apply_rules_contains(roles, rules.drop_last(), r);
        let prev = apply_rules(roles, rules.drop_last());
        let last = rules.last();
        if last.1 {
            lemma_with_contains(prev, last.0, r);
        } else {
            lemma_without_contains(prev, last.0, r);
        }
    }
}

proof fn lemma_rule_fate_settles(rules: Seq<(u64, bool)>, r: u64, b: bool)
    ensures
        rule_fate(rules, r, rule_fate(rules, r, b)) == rule_fate(rules, r, b),
    decreases rules.len(),
{
    if rules.len() > 0 && rules.last().0 != r {
        lemma_rule_fate_settles(rules.drop_last(), r, b);
    }
}

proof fn lemma_rule_fate_from(rules: Seq<(u64, bool)>, r: u64, b: bool, c: bool)
    ensures
        rule_fate(rules, r, b) == rule_fate(rules, r, c) || (rule_fate(rules, r, b) == b && rule_fate(rules, r, c) == c),
    decreases rules.len(),
{
    if rules.len() > 0 && rules.last().0 != r {
        lemma_rule_fate_from(rules.drop_last(), r, b, c);
    }
}

/// Which roles a linked member holds after a sync: each role a rule names
/// is held exactly when the last rule naming it matched; any other role is
/// held when it is the link role, or when it was held before and is not the
/// unlinked role.
pub proof fn linked_roles_held(
    current: Seq<u64>,
    link: Option<u64>,
    unlinked: Option<u64>,
    rules: Seq<(u64, bool)>,
    r: u64,
)
    ensures
        linked_roles(current, link, unlinked, rules).contains(r)
            == rule_fate(rules, r, held_before_rules(current, link, unlinked, r)),
{
    let a = with_opt(current, link);
    let b = without_opt(a, unlinked);
    match link {
        Some(l) => lemma_with_contains(current, l, r),
        None => {},
    }
    match unlinked {
        Some(u) => lemma_without_contains(a, u, r),
        None => {},
    }
    lemma_apply_rules_contains(b, rules, r);
}

/// Syncing a linked member a second time with the same rule outcomes leaves
/// the roles it holds unchanged.
pub proof fn linked_resync_keeps_roles(
    current: Seq<u64>,
    link: Option<u64>,
    unlinked: Option<u64>,
    rules: Seq<(u64, bool)>,
    r: u64,
)
    ensures
        linked_roles(linked_roles(current, link, unlinked, rules), link, unlinked, rules).contains(r)
            == linked_roles(current, link, unlinked, rules).contains(r),
{
    let once = linked_roles(current, link, unlinked, rules);
    linked_roles_held(current, link, unlinked, rules, r);
    linked_roles_held(once, link, unlinked, rules, r);
    let b = held_before_rules(current, link, unlinked, r);
    let c = held_before_rules(once, link, unlinked, r);
    lemma_rule_fate_from(rules, r, b, c);
    lemma_rule_fate_settles(rules, r, b);
}

proof fn lemma_strip_all_contains(roles: Seq<u64>, ids: Seq<u64>, r: u64)
    ensures
        strip_all(roles, ids).contains(r) == (roles.contains(r) && !ids.contains(r)),
    decreases ids.len(),
{
    if ids.len() > 0 {
        lemma_strip_all_contains(roles, ids.drop_last(), r);
        lemma_without_contains(strip_all(roles, ids.drop_last()), ids.last(), r);
        if ids.drop_last().contains(r) {
            let i = choose|i: int| 0 <= i < ids.drop_last().len() && ids.drop_last()[i] == r;
            assert(ids[i] == r);
        }
        if ids.contains(r) && ids.last() != r {
            let i = choose|i: int| 0 <= i < ids.len() && ids[i] == r;
            assert(ids.drop_last()[i] == r);
        }
    }
}

/// Which roles a member with no linked account holds after a sync: none of
/// the rules' roles and not the link role; the unlinked role; any other
/// role as before.
pub proof fn unlinked_roles_held(
    current: Seq<u64>,
    link: Option<u64>,
    unlinked: Option<u64>,
    rule_roles: Seq<u64>,
    r: u64,
)
    ensures
        unlinked_roles(current, link, unlinked, rule_roles).contains(r) == (!rule_roles.contains(r)
            && link != Some(r) && (unlinked == Some(r) || current.contains(r))),
{
    let a = with_opt(current, unlinked);
    let b = without_opt(a, link);
    match unlinked {
        Some(u) => lemma_with_contains(current, u, r),
        None => {},
    }
    match link {
        Some(l) => lemma_without_contains(a, l, r),
        None => {},
    }
    lemma_strip_all_contains(b, rule_roles, r);
}

/// Syncing a member with no linked account a second time leaves the roles
/// it holds unchanged.
pub proof fn unlinked_resync_keeps_roles(
    current: Seq<u64>,
    link: Option<u64>,
    unlinked: Option<u64>,
    rule_roles: Seq<u64>,
    r: u64,
)
    ensures
        unlinked_roles(unlinked_roles(current, link, unlinked, rule_roles), link, unlinked, rule_roles).contains(r)
            == unlinked_roles(current, link, unlinked, rule_roles).contains(r),
{
    let once = unlinked_roles(current, link, unlinked, rule_roles);
    unlinked_roles_held(current, link, unlinked, rule_roles, r);
    unlinked_roles_held(once, link, unlinked, rule_roles, r);
}

/// The part of a nickname the member wrote by hand: what follows the
/// template's own output (its trailing blanks trimmed), trimmed itself;
/// empty where the nickname is missing or empty, or does not start with
/// that output.
pub open spec fn custom_part(current: Option<Seq<char>>, base: Seq<char>) -> Seq<char> {
    match current {
        Some(nick) => {
            let b = trim_end(base);
            if nick.len() > 0 && has_prefix(nick, b) {
                trimmed(nick.skip(b.len() as int))
            } else {
                Seq::empty()
            }
        },
        None => Seq::empty(),
    }
}

/// The hand-written part of `current`, where `base` is what the nickname
/// template renders with an empty custom part.
pub fn extract_custom_nickname(base: &str, current_nick: Option<&str>) -> (r: String)
    ensures
        r@ == custom_part(
            match current_nick {
                Some(n) => Some(n@),
                None => None,
            },
            base@,
        ),
{
    let nick = match current_nick {
        Some(n) => n,
        None => return String::new(),
    };
    let nv = chars_of(nick);
    if nv.len() == 0 {
        return String::new();
    }
    let bv = chars_of(base);
    let mut end: usize = bv.len();
    assert(bv@.take(bv.len() as int) == bv@);
    while end > 0 && is_whitespace(bv[end - 1])
        invariant
            end <= bv.len(),
            trim_end(bv@) == trim_end(bv@.take(end as int)),
        decreases end,
    {
        assert(bv@.take(end as int).drop_last() == bv@.take(end - 1));
        end = end - 1;
    }
    assert(trim_end(bv@.take(end as int)) == bv@.take(end as int));
    let ghost b = bv@.take(end as int);
    if end > nv.len() {
        return String::new();
    }
    let mut i: usize = 0;
    while i < end
        invariant
            end <= bv.len(),
            end <= nv.len(),
            i <= end,
            nv@ == nick@,
            bv@ == base@,
            nv.len() > 0,
            current_nick == Some(nick),
            trim_end(bv@) == bv@.take(end as int),
            forall|j: int| 0 <= j < i ==> nv@[j] == bv@[j],
        decreases end - i,
    {
        if nv[i] != bv[i] {
            assert(!has_prefix(nv@, bv@.take(end as int))) by {
                assert(nv@.take(end as int)[i as int] != bv@.take(end as int)[i as int]);
            }
            return String::new();
        }
        i = i + 1;
    }
    assert(nv@.take(end as int) =~= b);
    let mut rest: Vec<char> = Vec::new();
    let mut k: usize = end;
    while k < nv.len()
        invariant
            end <= k <= nv.len(),
            rest@ == nv@.subrange(end as int, k as int),
        decreases nv.len() - k,
    {
        rest.push(nv[k]);
        assert(nv@.subrange(end as int, k + 1) == nv@.subrange(end as int, k as int).push(nv@[k as int]));
        k = k + 1;
    }
    assert(rest@ == nv@.skip(end as int));
    let t = trim_chars(&rest);
    string_of(&t)
}

/// The nickname to set: the rendered one, unless it is empty or already the
/// member's nickname.
pub fn nickname_change(rendered: String, current_nick: Option<&str>) -> (r: Option<String>)
    ensures
        r == (if rendered@.len() == 0 || (match current_nick {
            Some(n) => n@ == rendered@,
            None => false,
        }) {
            None::<String>
        } else {
            Some(rendered)
        }),
{
    let rv = chars_of(rendered.as_str());
    if rv.len() == 0 {
        return None;
    }
    match current_nick {
        Some(n) => {
            let nv = chars_of(n);
            if seq_eq(&nv, &rv) {
                None
            } else {
                Some(rendered)
            }
        },
        None => Some(rendered),
    }
}

/// Whether `i` holds the most urgent tag of `priorities` (the lowest number,
/// the first of equals); `None` entries are tags with no definition.
pub open spec fn is_highest(priorities: Seq<Option<u8>>, i: int) -> bool {
    &&& 0 <= i < priorities.len()
    &&& priorities[i] is Some
    &&& forall|j: int| 0 <= j < i ==> match #[trigger] priorities[j] {
        Some(p) => p > priorities[i]->0,
        None => true,
    }
    &&& forall|j: int| i < j < priorities.len() ==> match #[trigger] priorities[j] {
        Some(p) => p >= priorities[i]->0,
        None => true,
    }
}

/// The index of the member's most urgent active tag, which the nickname and
/// role templates see; `None` where no tag has a definition.
pub fn highest_tag_index(priorities: &Vec<Option<u8>>) -> (r: Option<usize>)
    ensures
        match r {
            Some(i) => is_highest(priorities@, i as int),
            None => forall|j: int| 0 <= j < priorities@.len() ==> priorities@[j] is None,
        },
{
    let mut best: Option<usize> = None;
    let mut i: usize = 0;
    while i < priorities.len()
        invariant
            i <= priorities.len(),
            match best {
                Some(b) => is_highest(priorities@.take(i as int), b as int),
                None => forall|j: int| 0 <= j < i ==> priorities@[j] is None,
            },
        decreases priorities.len() - i,
    {
        let ghost before = priorities@.take(i as int);
        let ghost after = priorities@.take(i + 1);
        assert(after == before.push(priorities@[i as int]));
        match priorities[i] {
            Some(p) => {
                match best {
                    Some(b) => {
                        let bp = match priorities[b] {
                            Some(x) => x,
                            None => 0,
                        };
                        assert(before[b as int] == priorities@[b as int]);
                        if p < bp {
                            best = Some(i);
                        }
                    },
                    None => {
                        best = Some(i);
                    },
                }
            },
            None => {},
        }
        i = i + 1;
    }
    assert(priorities@.take(priorities.len() as int) == priorities@);
    best
}

} // verus!
