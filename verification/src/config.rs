//! Edits of `KEY=value` configuration files.

use crate::text;
use crate::text::{chars_of, push_lines, split_lines, starts_with_chars};
use vstd::prelude::*;

verus! {

/// The line that gives `key` the value `value`.
pub open spec fn setting(key: Seq<char>, value: Seq<char>) -> Seq<char> {
    key + seq!['='] + value
}

/// `l` gives `key` a value.
pub open spec fn assigns(l: Seq<char>, key: Seq<char>) -> bool {
    text::has_prefix(l, key + seq!['='])
}

/// Some line of `ls` gives `key` a value.
pub open spec fn is_assigned(ls: Seq<Seq<char>>, key: Seq<char>) -> bool {
    exists|i: int| 0 <= i < ls.len() && assigns(#[trigger] ls[i], key)
}

/// `ls` with `value` as the only value of `key`: in place on every line that gives
/// it one, else on a new line at the end.
pub open spec fn with_setting(ls: Seq<Seq<char>>, key: Seq<char>, value: Seq<char>) -> Seq<
    Seq<char>,
> {
    if is_assigned(ls, key) {
        Seq::new(
            ls.len(),
            |i: int|
                if assigns(ls[i], key) {
                    setting(key, value)
                } else {
                    ls[i]
                },
        )
    } else {
        ls.push(setting(key, value))
    }
}

/// `ls` with each of the settings `ups`, in their order.
pub open spec fn with_settings(ls: Seq<Seq<char>>, ups: Seq<(Seq<char>, Seq<char>)>) -> Seq<
    Seq<char>,
>
    decreases ups.len(),
{
    if ups.len() == 0 {
        ls
    } else {
        with_setting(with_settings(ls, ups.drop_last()), ups.last().0, ups.last().1)
    }
}

/// The keys and values that a sequence of string pairs holds.
pub open spec fn pairs(ups: Seq<(String, String)>) -> Seq<(Seq<char>, Seq<char>)> {
    Seq::new(ups.len(), |i: int| (ups[i].0@, ups[i].1@))
}

/// The text of a configuration file after the updates `ups`.
pub open spec fn updated(config: Seq<char>, ups: Seq<(Seq<char>, Seq<char>)>) -> Seq<char> {
    text::terminated(with_settings(text::lines(config), ups))
}

/// Gives `key` the value `value` in the lines `ls`.
fn set(ls: &mut Vec<Vec<char>>, key: &str, value: &str)
    ensures
        text::rows(final(ls)@) == with_setting(text::rows(old(ls)@), key@, value@),
{
    let ghost before = text::rows(ls@);
    let mut prefix = chars_of(key);
    prefix.push('=');
    assert(prefix@ == key@ + seq!['=']);
    let total: usize = ls.len();
    let mut found = false;
    let mut i: usize = 0;
    while i < total
        invariant
            total == ls@.len(),
            total == before.len(),
            i <= total,
            prefix@ == key@ + seq!['='],
            found == exists|j: int| 0 <= j < i && assigns(#[trigger] before[j], key@),
            forall|j: int|
                0 <= j < i ==> #[trigger] ls@[j]@ == if assigns(before[j], key@) {
                    setting(key@, value@)
                } else {
                    before[j]
                },
            forall|j: int| i <= j < total ==> #[trigger] ls@[j]@ == before[j],
        decreases total - i,
    {
        if starts_with_chars(&ls[i], &prefix) {
            let line = setting_line(key, value);
            ls.set(i, line);
            found = true;
            assert(assigns(before[i as int], key@));
        }
        i += 1;
    }
    if !found {
        let line = setting_line(key, value);
        ls.push(line);
        assert(!is_assigned(before, key@));
    }
    assert(text::rows(ls@) == with_setting(before, key@, value@));
}

/// The line that gives `key` the value `value`.
fn setting_line(key: &str, value: &str) -> (r: Vec<char>)
    ensures
        r@ == setting(key@, value@),
{
    let mut line = chars_of(key);
    line.push('=');
    let mut tail = chars_of(value);
    line.append(&mut tail);
    assert(line@ == setting(key@, value@));
    line
}

/// The text of a configuration file after the updates `updates`: an existing key
/// is updated in place, a missing one is appended, and every other line is kept.
pub fn update_config(config: &str, updates: &[(String, String)]) -> (r: String)
    ensures
        r@ == updated(config@, pairs(updates@)),
{
    let mut ls = split_lines(&chars_of(config));
    let ghost ups = pairs(updates@);
    assert(ups.take(0) == Seq::<(Seq<char>, Seq<char>)>::empty());
    for i in 0..updates.len()
        invariant
            ups == pairs(updates@),
            text::rows(ls@) == with_settings(text::lines(config@), ups.take(i as int)),
    {
        set(&mut ls, updates[i].0.as_str(), updates[i].1.as_str());
        proof {
            assert(ups.take(i + 1).drop_last() == ups.take(i as int));
            assert(ups.take(i + 1).last() == ups[i as int]);
        }
    }
    assert(ups.take(ups.len() as int) == ups);
    let total: usize = ls.len();
    let mut out = String::new();
    push_lines(&mut out, &ls, 0, total);
    assert(text::rows(ls@).subrange(0, total as int) == text::rows(ls@));
    out
}

// ---------------------------------------------------------------------------
// Laws
// ---------------------------------------------------------------------------

/// The keys of `ups` differ from one another and none holds an equals sign.
pub open spec fn distinct_keys(ups: Seq<(Seq<char>, Seq<char>)>) -> bool {
    &&& forall|i: int| 0 <= i < ups.len() ==> !(#[trigger] ups[i]).0.contains('=')
    &&& forall|i: int, j: int|
        0 <= i < j < ups.len() ==> (#[trigger] ups[i]).0 != (#[trigger] ups[j]).0
}

/// `key` has the value `value` in `ls`, and no other.
pub open spec fn is_settled(ls: Seq<Seq<char>>, key: Seq<char>, value: Seq<char>) -> bool {
    &&& is_assigned(ls, key)
    &&& forall|i: int|
        0 <= i < ls.len() && assigns(#[trigger] ls[i], key) ==> ls[i] == setting(key, value)
}

/// A setting gives its key a value.
pub proof fn lemma_setting_assigns(key: Seq<char>, value: Seq<char>)
    ensures
        assigns(setting(key, value), key),
{
    assert(setting(key, value).subrange(0, key.len() as int + 1) == key + seq!['=']);
}

/// A line gives one key a value at most, among keys without an equals sign.
pub proof fn lemma_one_key(l: Seq<char>, a: Seq<char>, b: Seq<char>)
    requires
        !a.contains('='),
        !b.contains('='),
        assigns(l, a),
        assigns(l, b),
    ensures
        a == b,
{
    let p = a + seq!['='];
    let q = b + seq!['='];
    assert(forall|i: int| 0 <= i < p.len() ==> #[trigger] p[i] == l.subrange(0, p.len() as int)[i]);
    assert(forall|i: int| 0 <= i < q.len() ==> #[trigger] q[i] == l.subrange(0, q.len() as int)[i]);
    if a.len() < b.len() {
        assert(p[a.len() as int] == '=');
        assert(q[a.len() as int] == b[a.len() as int]);
        assert(b.contains(b[a.len() as int]));
    } else if b.len() < a.len() {
        assert(q[b.len() as int] == '=');
        assert(p[b.len() as int] == a[b.len() as int]);
        assert(a.contains(a[b.len() as int]));
    } else {
        assert forall|i: int| 0 <= i < a.len() implies a[i] == b[i] by {
            assert(p[i] == q[i]);
        }
        assert(a == b);
    }
}

proof fn lemma_set_settles(ls: Seq<Seq<char>>, key: Seq<char>, value: Seq<char>)
    ensures
        is_settled(with_setting(ls, key, value), key, value),
{
    lemma_setting_assigns(key, value);
    let new = with_setting(ls, key, value);
    if is_assigned(ls, key) {
        let i = choose|i: int| 0 <= i < ls.len() && assigns(#[trigger] ls[i], key);
        assert(assigns(new[i], key));
    } else {
        assert(new[ls.len() as int] == setting(key, value));
        assert forall|i: int| 0 <= i < new.len() && assigns(#[trigger] new[i], key) implies new[i]
            == setting(key, value) by {
            if i < ls.len() {
                assert(new[i] == ls[i]);
            }
        }
    }
}

proof fn lemma_set_keeps_settled(
    ls: Seq<Seq<char>>,
    key: Seq<char>,
    value: Seq<char>,
    other: Seq<char>,
    w: Seq<char>,
)
    requires
        is_settled(ls, other, w),
        key != other,
        !key.contains('='),
        !other.contains('='),
    ensures
        is_settled(with_setting(ls, key, value), other, w),
{
    let new = with_setting(ls, key, value);
    lemma_setting_assigns(key, value);
    let k = choose|i: int| 0 <= i < ls.len() && assigns(#[trigger] ls[i], other);
    assert(new[k] == ls[k]) by {
        if assigns(ls[k], key) {
            lemma_one_key(ls[k], key, other);
        }
    }
    assert(assigns(new[k], other));
    assert forall|i: int| 0 <= i < new.len() && assigns(#[trigger] new[i], other) implies new[i]
        == setting(other, w) by {
        if assigns(setting(key, value), other) {
            lemma_one_key(setting(key, value), key, other);
        }
        if i < ls.len() {
            assert(assigns(ls[i], other));
        }
    }
}

/// A read gives back what was written: after the updates each key has its new
/// value, and no line gives it another.
pub proof fn law_updates_are_settled(
    ls: Seq<Seq<char>>,
    ups: Seq<(Seq<char>, Seq<char>)>,
    i: int,
)
    requires
        distinct_keys(ups),
        0 <= i < ups.len(),
    ensures
        is_settled(with_settings(ls, ups), ups[i].0, ups[i].1),
    decreases ups.len(),
{
    let init = ups.drop_last();
    let last = ups.last();
    if i == ups.len() - 1 {
        lemma_set_settles(with_settings(ls, init), last.0, last.1);
    } else {
        assert(init[i] == ups[i]);
        assert(ups[ups.len() - 1] == last);
        law_updates_are_settled(ls, init, i);
        lemma_set_keeps_settled(with_settings(ls, init), last.0, last.1, ups[i].0, ups[i].1);
    }
}

/// `l` gives none of the keys of `ups` a value.
pub open spec fn is_untouched(l: Seq<char>, ups: Seq<(Seq<char>, Seq<char>)>) -> bool {
    forall|i: int| 0 <= i < ups.len() ==> !assigns(l, (#[trigger] ups[i]).0)
}

/// `l` is one of the settings `ups`.
pub open spec fn is_setting_of(l: Seq<char>, ups: Seq<(Seq<char>, Seq<char>)>) -> bool {
    exists|i: int|
        0 <= i < ups.len() && l == setting((#[trigger] ups[i]).0, ups[i].1)
}

/// The updates touch nothing else: a line of another key keeps its place and its
/// text, and every line that is new or changed is one of the settings.
pub proof fn law_other_lines_are_kept(ls: Seq<Seq<char>>, ups: Seq<(Seq<char>, Seq<char>)>)
    ensures
        with_settings(ls, ups).len() >= ls.len(),
        forall|k: int|
            0 <= k < ls.len() && is_untouched(ls[k], ups) ==> #[trigger] with_settings(ls, ups)[k]
                == ls[k],
        forall|k: int|
            0 <= k < with_settings(ls, ups).len() ==> (k < ls.len() && #[trigger] with_settings(
                ls,
                ups,
            )[k] == ls[k]) || is_setting_of(with_settings(ls, ups)[k], ups),
    decreases ups.len(),
{
    if ups.len() > 0 {
        let init = ups.drop_last();
        let last = ups.last();
        let mid = with_settings(ls, init);
        let new = with_settings(ls, ups);
        law_other_lines_are_kept(ls, init);
        assert(ups[ups.len() - 1] == last);
        assert forall|k: int| 0 <= k < ls.len() && is_untouched(ls[k], ups) implies #[trigger] new[k]
            == ls[k] by {
            assert(is_untouched(ls[k], init)) by {
                assert forall|i: int| 0 <= i < init.len() implies !assigns(
                    ls[k],
                    (#[trigger] init[i]).0,
                ) by {
                    assert(init[i] == ups[i]);
                }
            }
            assert(mid[k] == ls[k]);
        }
        assert forall|k: int| 0 <= k < new.len() implies (k < ls.len() && #[trigger] new[k] == ls[k])
            || is_setting_of(new[k], ups) by {
            if k < mid.len() && new[k] == mid[k] {
                if !(k < ls.len() && mid[k] == ls[k]) {
                    let i = choose|i: int|
                        0 <= i < init.len() && mid[k] == setting(
                            (#[trigger] init[i]).0,
                            init[i].1,
                        );
                    assert(ups[i] == init[i]);
                }
            } else {
                assert(new[k] == setting(ups[ups.len() - 1].0, ups[ups.len() - 1].1));
            }
        }
    }
}

proof fn lemma_settled_is_fixed(ls: Seq<Seq<char>>, ups: Seq<(Seq<char>, Seq<char>)>)
    requires
        forall|i: int| 0 <= i < ups.len() ==> is_settled(ls, (#[trigger] ups[i]).0, ups[i].1),
    ensures
        with_settings(ls, ups) == ls,
    decreases ups.len(),
{
    if ups.len() > 0 {
        let init = ups.drop_last();
        assert forall|i: int| 0 <= i < init.len() implies is_settled(
            ls,
            (#[trigger] init[i]).0,
            init[i].1,
        ) by {
            assert(init[i] == ups[i]);
        }
        lemma_settled_is_fixed(ls, init);
        let last = ups[ups.len() - 1];
        assert(is_settled(ls, last.0, last.1));
        assert(with_setting(ls, last.0, last.1) == ls);
    }
}

/// The lines of the updated text are the updated lines, for proper lines and values.
pub proof fn law_updated_lines(config: Seq<char>, ups: Seq<(Seq<char>, Seq<char>)>)
    requires
        forall|i: int|
            0 <= i < text::lines(config).len() ==> text::proper_line(
                #[trigger] text::lines(config)[i],
            ),
        forall|i: int|
            0 <= i < ups.len() ==> text::proper_line(
                setting((#[trigger] ups[i]).0, ups[i].1),
            ),
    ensures
        text::lines(updated(config, ups)) == with_settings(text::lines(config), ups),
{
    law_other_lines_are_kept(text::lines(config), ups);
    text::law_lines_of_terminated(with_settings(text::lines(config), ups));
}

/// Updating twice is updating once, for proper lines and values.
pub proof fn law_update_is_idempotent(config: Seq<char>, ups: Seq<(Seq<char>, Seq<char>)>)
    requires
        distinct_keys(ups),
        forall|i: int|
            0 <= i < text::lines(config).len() ==> text::proper_line(
                #[trigger] text::lines(config)[i],
            ),
        forall|i: int|
            0 <= i < ups.len() ==> text::proper_line(
                setting((#[trigger] ups[i]).0, ups[i].1),
            ),
    ensures
        updated(updated(config, ups), ups) == updated(config, ups),
{
    let ls = text::lines(config);
    let new = with_settings(ls, ups);
    law_updated_lines(config, ups);
    assert forall|i: int| 0 <= i < ups.len() implies is_settled(
        new,
        (#[trigger] ups[i]).0,
        ups[i].1,
    ) by {
        law_updates_are_settled(ls, ups, i);
    }
    lemma_settled_is_fixed(new, ups);
}

/// One update, whatever the file held: every line that starts with the key and an equals
/// sign becomes the key, an equals sign and the new value, every other line stays, and
/// where there was no such line it comes last.
pub proof fn law_one_update(ls: Seq<Seq<char>>, key: Seq<char>, value: Seq<char>)
    ensures
        ({
            let new = with_settings(ls, seq![(key, value)]);
            let line = key + seq!['='] + value;
            let n = key.len() as int + 1;
            let there = exists|k: int|
                0 <= k < ls.len() && (#[trigger] ls[k]).len() >= n && ls[k].take(n) == key.push('=');
            &&& new.len() == ls.len() + (if there {
                0int
            } else {
                1
            })
            &&& forall|k: int|
                0 <= k < ls.len() ==> #[trigger] new[k] == if ls[k].len() >= n && ls[k].take(n)
                    == key.push('=') {
                    line
                } else {
                    ls[k]
                }
            &&& !there ==> new.last() == line
        }),
{
    let ups = seq![(key, value)];
    let n = key.len() as int + 1;
    reveal_with_fuel(with_settings, 2);
    assert(ups.drop_last() == Seq::<(Seq<char>, Seq<char>)>::empty());
    assert(with_settings(ls, ups) == with_setting(ls, key, value));
    assert(key + seq!['='] == key.push('='));
    assert forall|k: int| 0 <= k < ls.len() implies (assigns(#[trigger] ls[k], key) <==> ls[k].len()
        >= n && ls[k].take(n) == key.push('=')) by {
        text::law_substring(ls[k], key.push('='));
    }
}

/// Updates are made one after the other, and none changes nothing.
pub proof fn law_updates_one_by_one(
    ls: Seq<Seq<char>>,
    ups: Seq<(Seq<char>, Seq<char>)>,
    last: (Seq<char>, Seq<char>),
)
    ensures
        with_settings(ls, Seq::<(Seq<char>, Seq<char>)>::empty()) == ls,
        with_settings(ls, ups.push(last)) == with_settings(with_settings(ls, ups), seq![last]),
{
    reveal_with_fuel(with_settings, 2);
    assert(ups.push(last).drop_last() == ups);
    assert(seq![last].drop_last() == Seq::<(Seq<char>, Seq<char>)>::empty());
}

/// The updated text is the updated lines of the text, each ended by a line feed, and the
/// updates are the pairs that were given, in their order.
pub proof fn law_updated_text(config: Seq<char>, ups: Seq<(String, String)>)
    ensures
        updated(config, pairs(ups)) == text::terminated(
            with_settings(text::lines(config), pairs(ups)),
        ),
        pairs(ups).len() == ups.len(),
        forall|i: int| 0 <= i < ups.len() ==> #[trigger] pairs(ups)[i] == (ups[i].0@, ups[i].1@),
{
}

} // verus!
