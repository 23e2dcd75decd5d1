//! What a frame of play makes of the contacts between bullets and enemies:
//! which of them are struck, the explosions that follow, the points won, and
//! which bodies stay in the world afterwards.
//!
//! Contacts arrive as a table `contacts[b][e]`: bullet `b` overlaps enemy
//! `e` in this frame. Every pair is looked at, bullet by bullet and, for
//! each bullet, enemy by enemy; a body struck once still counts for every
//! further pair it is part of.
use vstd::prelude::*;

verus! {

/// The score would no longer fit in a machine word.
#[derive(Debug, Clone, Copy, PartialEq, Eq, Structural)]
pub struct ScoreOverflow;

/// Indices `e < n` that `row` marks, in increasing order.
pub open spec fn marked_upto(row: Seq<bool>, n: int) -> Seq<usize>
    decreases n,
{
    if n <= 0 {
        Seq::empty()
    } else if row[n - 1] {
        marked_upto(row, n - 1).push((n - 1) as usize)
    } else {
        marked_upto(row, n - 1)
    }
}

/// The enemies struck, one entry per contact, in the order in which the
/// pairs are looked at: the first `bullets` rows of `contacts`, each read
/// over its first `enemies` entries.
pub open spec fn strikes(contacts: Seq<Vec<bool>>, bullets: int, enemies: int) -> Seq<usize>
    decreases bullets,
{
    if bullets <= 0 {
        Seq::empty()
    } else {
        strikes(contacts, bullets - 1, enemies) + marked_upto(contacts[bullets - 1]@, enemies)
    }
}

/// The points that the strikes in `events` earn, each worth the value of
/// the enemy struck.
pub open spec fn points(events: Seq<usize>, values: Seq<usize>) -> nat
    decreases events.len(),
{
    if events.len() == 0 {
        0
    } else {
        points(events.drop_last(), values) + values[events.last() as int] as nat
    }
}

/// Every row of the table has one entry per enemy.
pub open spec fn well_shaped(contacts: Seq<Vec<bool>>, enemies: int) -> bool {
    forall|b: int| 0 <= b < contacts.len() ==> (#[trigger] contacts[b])@.len() == enemies
}

/// Bullet `b` touches at least one enemy.
pub open spec fn bullet_strikes(contacts: Seq<Vec<bool>>, b: int, enemies: int) -> bool {
    exists|e: int| 0 <= e < enemies && #[trigger] contacts[b]@[e]
}

/// Enemy `e` is touched by at least one of the first `bullets` bullets.
pub open spec fn enemy_struck(contacts: Seq<Vec<bool>>, bullets: int, e: int) -> bool {
    exists|b: int| 0 <= b < bullets && #[trigger] contacts[b]@[e]
}

/// What the contacts of a frame come to, before points are counted.
pub struct Strikes {
    /// One flag per bullet: it touched some enemy.
    pub bullets_hit: Vec<bool>,
    /// One flag per enemy: some bullet touched it.
    pub enemies_hit: Vec<bool>,
    /// The enemy of each contact, in the order of `strikes`; each entry is
    /// an explosion and a sound.
    pub explosions: Vec<usize>,
}

/// The marked indices below `n` are all below `n`.
proof fn lemma_marked_bounded(row: Seq<bool>, n: int)
    ensures
        forall|i: int|
            0 <= i < marked_upto(row, n).len() ==> #[trigger] marked_upto(row, n)[i] < n,
    decreases n,
{
    if n > 0 {
        lemma_marked_bounded(row, n - 1);
        let prev = marked_upto(row, n - 1);
        assert forall|i: int|
            0 <= i < marked_upto(row, n).len() implies #[trigger] marked_upto(row, n)[i] < n by {
            if i < prev.len() {
                assert(marked_upto(row, n)[i] == prev[i]);
            }
        }
    }
}

/// Every strike names an enemy of the table.
proof fn lemma_strikes_bounded(contacts: Seq<Vec<bool>>, bullets: int, enemies: int)
    ensures
        forall|i: int|
            0 <= i < strikes(contacts, bullets, enemies).len() ==> #[trigger] strikes(
                contacts,
                bullets,
                enemies,
            )[i] < enemies,
    decreases bullets,
{
    if bullets > 0 {
        lemma_strikes_bounded(contacts, bullets - 1, enemies);
        lemma_marked_bounded(contacts[bullets - 1]@, enemies);
        let a = strikes(contacts, bullets - 1, enemies);
        let m = marked_upto(contacts[bullets - 1]@, enemies);
        assert forall|i: int| 0 <= i < (a + m).len() implies #[trigger] (a + m)[i] < enemies by {
            if i >= a.len() {
                assert((a + m)[i] == m[i - a.len()]);
            }
        }
    }
}

/// Points only grow as more of a list of strikes is counted.
pub proof fn lemma_points_grow(events: Seq<usize>, values: Seq<usize>, i: int, j: int)
    requires
        0 <= i <= j <= events.len(),
    ensures
        points(events.take(i), values) <= points(events.take(j), values),
    decreases j - i,
{
    if i < j {
        lemma_points_grow(events, values, i, j - 1);
        assert(events.take(j).drop_last() =~= events.take(j - 1));
    }
}

/// Looks at every bullet-enemy pair of the frame and reports what was
/// struck. `contacts[b][e]` tells whether bullet `b` overlaps enemy `e`;
/// `enemies` is the number of enemies.
pub fn find_strikes(contacts: &Vec<Vec<bool>>, enemies: usize) -> (found: Strikes)
    requires
        well_shaped(contacts@, enemies as int),
    ensures
        found.bullets_hit@.len() == contacts@.len(),
        forall|b: int|
            0 <= b < contacts@.len() ==> (#[trigger] found.bullets_hit@[b] <==> bullet_strikes(
                contacts@,
                b,
                enemies as int,
            )),
        found.enemies_hit@.len() == enemies,
        forall|e: int|
            0 <= e < enemies ==> (#[trigger] found.enemies_hit@[e] <==> enemy_struck(
                contacts@,
                contacts@.len() as int,
                e,
            )),
        found.explosions@ == strikes(contacts@, contacts@.len() as int, enemies as int),
{
    let bullets = contacts.len();
    let mut bullets_hit: Vec<bool> = Vec::new();
    let mut enemies_hit: Vec<bool> = Vec::new();
    let mut explosions: Vec<usize> = Vec::new();
    let mut e: usize = 0;
    while e < enemies
        invariant
            e <= enemies,
            enemies_hit@.len() == e,
            forall|k: int| 0 <= k < e ==> !(#[trigger] enemies_hit@[k]),
        decreases enemies - e,
    {
        enemies_hit.push(false);
        e = e + 1;
    }
    let mut b: usize = 0;
    while b < bullets
        invariant
            b <= bullets,
            bullets == contacts@.len(),
            well_shaped(contacts@, enemies as int),
            bullets_hit@.len() == b,
            forall|k: int|
                0 <= k < b ==> (#[trigger] bullets_hit@[k] <==> bullet_strikes(
                    contacts@,
                    k,
                    enemies as int,
                )),
            enemies_hit@.len() == enemies,
            forall|k: int|
                0 <= k < enemies ==> (#[trigger] enemies_hit@[k] <==> enemy_struck(
                    contacts@,
                    b as int,
                    k,
                )),
            explosions@ == strikes(contacts@, b as int, enemies as int),
        decreases bullets - b,
    {
        let row = &contacts[b];
        assert(row@.len() == enemies);
        let mut touched = false;
        let mut e: usize = 0;
        while e < enemies
            invariant
                e <= enemies,
                b < bullets,
                bullets == contacts@.len(),
                row@ == contacts@[b as int]@,
                row@.len() == enemies,
                touched <==> exists|k: int| 0 <= k < e && #[trigger] row@[k],
                enemies_hit@.len() == enemies,
                forall|k: int|
                    0 <= k < enemies ==> (#[trigger] enemies_hit@[k] <==> (enemy_struck(
                        contacts@,
                        b as int,
                        k,
                    ) || (k < e && row@[k]))),
                explosions@ == strikes(contacts@, b as int, enemies as int) + marked_upto(
                    row@,
                    e as int,
                ),
            decreases enemies - e,
        {
            if row[e] {
                enemies_hit.set(e, true);
                touched = true;
                explosions.push(e);
                proof {
                    assert(marked_upto(row@, e as int + 1) == marked_upto(row@, e as int).push(
                        e,
                    ));
                    assert(strikes(contacts@, b as int, enemies as int) + marked_upto(
                        row@,
                        e as int + 1,
                    ) =~= (strikes(contacts@, b as int, enemies as int) + marked_upto(
                        row@,
                        e as int,
                    )).push(e));
                }
            } else {
                assert(marked_upto(row@, e as int + 1) == marked_upto(row@, e as int));
            }
            e = e + 1;
        }
        bullets_hit.push(touched);
        proof {
            assert(strikes(contacts@, b as int + 1, enemies as int) == strikes(
                contacts@,
                b as int,
                enemies as int,
            ) + marked_upto(contacts@[b as int]@, enemies as int));
            assert forall|k: int| 0 <= k < enemies implies (#[trigger] enemies_hit@[k]
                <==> enemy_struck(contacts@, b as int + 1, k)) by {
                if enemies_hit@[k] && !enemy_struck(contacts@, b as int, k) {
                    assert(contacts@[b as int]@[k]);
                }
                if enemy_struck(contacts@, b as int + 1, k) {
                    let w = choose|w: int| 0 <= w < b + 1 && #[trigger] contacts@[w]@[k];
                    if w < b {
                        assert(enemy_struck(contacts@, b as int, k));
                    }
                }
            }
            assert forall|k: int| 0 <= k < b + 1 implies (#[trigger] bullets_hit@[k]
                <==> bullet_strikes(contacts@, k, enemies as int)) by {
                if k == b {
                    if touched {
                        let w = choose|w: int| 0 <= w < enemies && #[trigger] row@[w];
                        assert(contacts@[k]@[w]);
                    }
                    if bullet_strikes(contacts@, k, enemies as int) {
                        let w = choose|w: int| 0 <= w < enemies && #[trigger] contacts@[k]@[w];
                        assert(row@[w]);
                    }
                }
            }
        }
        b = b + 1;
    }
    Strikes { bullets_hit, enemies_hit, explosions }
}

/// Adds to `score` the value of the enemy of each strike, in order, as the
/// game adds them one by one; `Err` when the total no longer fits.
pub fn add_points(score: usize, events: &Vec<usize>, values: &Vec<usize>) -> (total: Result<
    usize,
    ScoreOverflow,
>)
    requires
        forall|i: int| 0 <= i < events@.len() ==> #[trigger] events@[i] < values@.len(),
    ensures
        match total {
            Ok(t) => t == score + points(events@, values@),
            Err(_) => score + points(events@, values@) > usize::MAX,
        },
{
    let mut acc: usize = score;
    let mut i: usize = 0;
    while i < events.len()
        invariant
            i <= events@.len(),
            forall|k: int| 0 <= k < events@.len() ==> #[trigger] events@[k] < values@.len(),
            acc == score + points(events@.take(i as int), values@),
        decreases events@.len() - i,
    {
        let e = events[i];
        assert(events@.take(i as int + 1).drop_last() =~= events@.take(i as int));
        assert(events@.take(i as int + 1).last() == e);
        match acc.checked_add(values[e]) {
            None => {
                proof {
                    lemma_points_grow(events@, values@, i as int + 1, events@.len() as int);
                    assert(events@.take(events@.len() as int) =~= events@);
                }
                return Err(ScoreOverflow);
            },
            Some(next) => {
                acc = next;
            },
        }
        i = i + 1;
    }
    assert(events@.take(events@.len() as int) =~= events@);
    Ok(acc)
}

/// The strikes of a table only name enemies of that table.
pub proof fn lemma_strikes_name_enemies(contacts: Seq<Vec<bool>>, enemies: int)
    ensures
        forall|i: int|
            0 <= i < strikes(contacts, contacts.len() as int, enemies).len() ==> #[trigger] strikes(
                contacts,
                contacts.len() as int,
                enemies,
            )[i] < enemies,
{
    lemma_strikes_bounded(contacts, contacts.len() as int, enemies);
}

/// One flag per body: it was not struck and is still in view, so it stays.
pub fn survivors(struck: &Vec<bool>, in_view: &Vec<bool>) -> (keep: Vec<bool>)
    requires
        struck@.len() == in_view@.len(),
    ensures
        keep@.len() == struck@.len(),
        forall|i: int|
            0 <= i < keep@.len() ==> #[trigger] keep@[i] == (!struck@[i] && in_view@[i]),
{
    let mut keep: Vec<bool> = Vec::new();
    let mut i: usize = 0;
    while i < struck.len()
        invariant
            i <= struck@.len(),
            struck@.len() == in_view@.len(),
            keep@.len() == i,
            forall|k: int| 0 <= k < i ==> #[trigger] keep@[k] == (!struck@[k] && in_view@[k]),
        decreases struck@.len() - i,
    {
        keep.push(!struck[i] && in_view[i]);
        i = i + 1;
    }
    keep
}

/// A bullet and an enemy that touch are both struck, so neither stays.
pub proof fn lemma_touching_pair_is_struck(contacts: Seq<Vec<bool>>, enemies: int, b: int, e: int)
    requires
        0 <= b < contacts.len(),
        0 <= e < enemies,
        contacts[b]@[e],
    ensures
        bullet_strikes(contacts, b, enemies),
        enemy_struck(contacts, contacts.len() as int, e),
{
}

/// The items of `items` whose flag in `keep` is set, in their order.
pub open spec fn kept<T>(items: Seq<T>, keep: Seq<bool>) -> Seq<T>
    decreases items.len(),
{
    if items.len() == 0 {
        Seq::empty()
    } else if keep[items.len() - 1] {
        kept(items.drop_last(), keep).push(items.last())
    } else {
        kept(items.drop_last(), keep)
    }
}

proof fn lemma_kept_step<T>(items: Seq<T>, keep: Seq<bool>, j: int)
    requires
        0 <= j < items.len(),
    ensures
        kept(items.take(j + 1), keep) == if keep[j] {
            kept(items.take(j), keep).push(items[j])
        } else {
            kept(items.take(j), keep)
        },
{
    assert(items.take(j + 1).drop_last() =~= items.take(j));
}

/// Removes from `items` those whose flag in `keep` is clear, keeping the
/// order of the rest.
pub fn retain_marked<T>(items: &mut Vec<T>, keep: &Vec<bool>)
    requires
        old(items)@.len() == keep@.len(),
    ensures
        final(items)@ == kept(old(items)@, keep@),
{
    let ghost original = items@;
    let n = keep.len();
    let mut i: usize = 0;
    let mut j: usize = 0;
    while j < n
        invariant
            n == keep@.len(),
            n == original.len(),
            j <= n,
            i <= j,
            items@ == kept(original.take(j as int), keep@) + original.skip(j as int),
            i == kept(original.take(j as int), keep@).len(),
        decreases n - j,
    {
        proof {
            lemma_kept_step(original, keep@, j as int);
        }
        let ghost before = items@;
        assert(items@[i as int] == original[j as int]);
        if keep[j] {
            i = i + 1;
            assert(original.skip(j as int).drop_first() =~= original.skip(j as int + 1));
            assert(items@ =~= kept(original.take(j as int + 1), keep@) + original.skip(
                j as int + 1,
            ));
        } else {
            items.remove(i);
            assert(items@ =~= kept(original.take(j as int + 1), keep@) + original.skip(
                j as int + 1,
            ));
        }
        j = j + 1;
    }
    assert(original.take(n as int) =~= original);
    assert(original.skip(n as int) =~= Seq::<T>::empty());
    assert(items@ =~= kept(original, keep@));
}

/// The number of set flags in `flags`.
pub open spec fn count_set(flags: Seq<bool>) -> nat {
    flags.filter(|x: bool| x).len()
}

/// How many times `e` occurs in `s`.
pub open spec fn occurrences(s: Seq<usize>, e: usize) -> nat {
    s.filter(|x: usize| x == e).len()
}

/// For each of the first `bullets` bullets, whether it touches enemy `e`.
pub open spec fn column(contacts: Seq<Vec<bool>>, bullets: int, e: int) -> Seq<bool> {
    Seq::new(bullets as nat, |b: int| contacts[b]@[e])
}

/// The number of touching pairs among the first `bullets` rows.
pub open spec fn total_contacts(contacts: Seq<Vec<bool>>, bullets: int) -> nat
    decreases bullets,
{
    if bullets <= 0 {
        0
    } else {
        total_contacts(contacts, bullets - 1) + count_set(contacts[bullets - 1]@)
    }
}

proof fn lemma_marked_counts(row: Seq<bool>, n: int, e: usize)
    requires
        0 <= n <= row.len(),
        row.len() <= usize::MAX,
    ensures
        marked_upto(row, n).len() == count_set(row.take(n)),
        occurrences(marked_upto(row, n), e) == if e < n && row[e as int] {
            1nat
        } else {
            0nat
        },
    decreases n,
{
    broadcast use Seq::lemma_filter_len_push;

    if n == 0 {
        assert(row.take(0) =~= Seq::<bool>::empty());
        reveal(Seq::filter);
        assert(marked_upto(row, 0) =~= Seq::<usize>::empty());
    } else {
        lemma_marked_counts(row, n - 1, e);
        assert(row.take(n) =~= row.take(n - 1).push(row[n - 1]));
        let m = marked_upto(row, n - 1);
        if row[n - 1] {
            assert(marked_upto(row, n) == m.push((n - 1) as usize));
            assert(m.push((n - 1) as usize).filter(|x: usize| x == e).len() == m.filter(
                |x: usize| x == e,
            ).len() + if (n - 1) as usize == e {
                1int
            } else {
                0int
            });
        } else {
            assert(marked_upto(row, n) == m);
        }
    }
}

/// Strikes are counted pair by pair: there is one explosion for each
/// touching bullet-enemy pair, and enemy `e` explodes once for each bullet
/// that touches it.
pub proof fn lemma_one_explosion_per_contact(contacts: Seq<Vec<bool>>, bullets: int, enemies: int)
    requires
        0 <= bullets <= contacts.len(),
        0 <= enemies <= usize::MAX,
        well_shaped(contacts, enemies),
    ensures
        strikes(contacts, bullets, enemies).len() == total_contacts(contacts, bullets),
        forall|e: int|
            0 <= e < enemies ==> #[trigger] occurrences(strikes(contacts, bullets, enemies), e as usize)
                == count_set(column(contacts, bullets, e)),
    decreases bullets,
{
    broadcast use Seq::lemma_filter_len_push;
    broadcast use Seq::filter_distributes_over_add;

    if bullets == 0 {
        reveal(Seq::filter);
        assert forall|e: int| 0 <= e < enemies implies #[trigger] occurrences(
            strikes(contacts, 0, enemies),
            e as usize,
        ) == count_set(column(contacts, 0, e)) by {
            assert(column(contacts, 0, e) =~= Seq::<bool>::empty());
            assert(strikes(contacts, 0, enemies) =~= Seq::<usize>::empty());
        }
    } else {
        lemma_one_explosion_per_contact(contacts, bullets - 1, enemies);
        let row = contacts[bullets - 1]@;
        assert(row.len() == enemies);
        let prev = strikes(contacts, bullets - 1, enemies);
        let m = marked_upto(row, enemies);
        assert(strikes(contacts, bullets, enemies) == prev + m);
        lemma_marked_counts(row, enemies, 0);
        assert(row.take(enemies) =~= row);
        assert forall|e: int| 0 <= e < enemies implies #[trigger] occurrences(
            strikes(contacts, bullets, enemies),
            e as usize,
        ) == count_set(column(contacts, bullets, e)) by {
            lemma_marked_counts(row, enemies, e as usize);
            assert((prev + m).filter(|x: usize| x == e as usize) == prev.filter(
                |x: usize| x == e as usize,
            ) + m.filter(|x: usize| x == e as usize));
            assert(column(contacts, bullets, e) =~= column(contacts, bullets - 1, e).push(
                row[e],
            ));
            assert(occurrences(prev, e as usize) == count_set(column(contacts, bullets - 1, e)));
        }
    }
}

/// Each strike on enemy `e` adds exactly the value of `e`: no strikes earn
/// nothing, one strike earns its enemy's value, one more strike adds its
/// enemy's value, and the points of two runs of strikes add up.
pub proof fn lemma_points_per_strike(events: Seq<usize>, more: Seq<usize>, values: Seq<usize>, e: usize)
    ensures
        points(Seq::empty(), values) == 0,
        points(seq![e], values) == values[e as int],
        points(events.push(e), values) == points(events, values) + values[e as int],
        points(events + more, values) == points(events, values) + points(more, values),
    decreases more.len(),
{
    assert(points(Seq::<usize>::empty(), values) == 0);
    assert(seq![e].drop_last() =~= Seq::<usize>::empty());
    assert(seq![e].last() == e);
    assert(events.push(e).drop_last() =~= events);
    if more.len() > 0 {
        lemma_points_per_strike(events, more.drop_last(), values, e);
        assert((events + more).drop_last() =~= events + more.drop_last());
    } else {
        assert(events + more =~= events);
    }
}

/// Removal keeps exactly as many items as there are set flags, keeps
/// everything when every flag is set and nothing when none is.
pub proof fn lemma_kept_count(items: Seq<usize>, keep: Seq<bool>)
    requires
        items.len() <= keep.len(),
    ensures
        kept(items, keep).len() == count_set(keep.take(items.len() as int)),
        (forall|i: int| 0 <= i < items.len() ==> #[trigger] keep[i]) ==> kept(items, keep) == items,
        (forall|i: int| 0 <= i < items.len() ==> !(#[trigger] keep[i])) ==> kept(items, keep).len()
            == 0,
    decreases items.len(),
{
    broadcast use Seq::lemma_filter_len_push;

    if items.len() == 0 {
        reveal(Seq::filter);
        assert(keep.take(0) =~= Seq::<bool>::empty());
    } else {
        let n = items.len() as int;
        lemma_kept_count(items.drop_last(), keep);
        assert(keep.take(n) =~= keep.take(n - 1).push(keep[n - 1]));
        if forall|i: int| 0 <= i < items.len() ==> #[trigger] keep[i] {
            assert(keep[n - 1]);
            assert(items.drop_last().push(items.last()) =~= items);
        }
    }
}

} // verus!
