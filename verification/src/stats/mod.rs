//! Entity statistics.
//!
//! An entity has base stats. Modifiers on the entities below it change them;
//! what comes out is the [`ComputedStat`], which is what the rules of battle
//! read.

use vstd::prelude::*;

pub mod stat;

use crate::fixed::{clamp_i32, clamp_i64, hold_i32, hold_i64, ONE};
use stat::{
    Aspd, Atk, AtkInterval, Block, Def, DpCost, MaxHp, MoveSpeed, RedeployTime, Res,
};
use std::marker::PhantomData;

verus! {

/// A change to a stat: something to multiply it by, and something to add to
/// the product.
pub trait Modifier: Sized {
    /// What the modifier adds.
    spec fn addend(&self) -> int;

    /// What the modifier multiplies by, as a fixed-point number.
    spec fn factor(&self) -> int;

    /// A sum of addends as the modifier holds it.
    spec fn hold_addend(sum: int) -> int;

    /// Creates a modifier that, when combined with another, does nothing.
    fn identity() -> (modif: Self)
        ensures
            modif.addend() == 0,
            modif.factor() == 0,
    ;

    /// Creates a modifier that, when applied to a stat, does nothing to it.
    fn base() -> (modif: Self)
        ensures
            modif.addend() == 0,
            modif.factor() == ONE,
    ;

    /// Combines another modifier into this one: the addends add up, and so
    /// do the factors.
    fn combine(&mut self, other: &Self)
        ensures
            final(self).addend() == Self::hold_addend(old(self).addend() + other.addend()),
            final(self).factor() == clamp_i64(old(self).factor() + other.factor()),
    ;
}

/// A stat of one kind.
pub trait Stat: Sized + Copy {
    type Modifier: Modifier;

    /// The value of the stat.
    spec fn value(&self) -> int;

    /// The value that a stat of this kind has after a modifier with the given
    /// addend and factor was applied to `value`: multiplied, then added to,
    /// then held to the domain of the kind.
    spec fn apply_value(value: int, addend: int, factor: int) -> int;

    /// Applies a modifier to the stat.
    fn apply(&mut self, modif: &Self::Modifier)
        ensures
            final(self).value() == Self::apply_value(
                old(self).value(),
                modif.addend(),
                modif.factor(),
            ),
    ;

    /// Creates a modifier that, when combined with another, does nothing.
    fn modif() -> (modif: Self::Modifier)
        ensures
            modif.addend() == 0,
            modif.factor() == 0,
    ;

    /// Whether two stats have the same value.
    fn same(&self, other: &Self) -> (same: bool)
        ensures
            same == (self.value() == other.value()),
    ;
}

/// A modifier of a stat that is a whole number.
#[derive(Debug)]
pub struct ModifierI32<T> {
    add: i32,
    mul: i64,
    _marker: PhantomData<T>,
}

impl<T> ModifierI32<T> {
    /// How much will be added to the final stat.
    pub fn add(self, value: i32) -> (modif: ModifierI32<T>)
        ensures
            modif.addend() == value,
            modif.factor() == self.factor(),
    {
        ModifierI32 { add: value, mul: self.mul, _marker: PhantomData }
    }

    /// How much will be multiplied to the final stat, as a fixed-point
    /// number.
    pub fn mul(self, value: i64) -> (modif: ModifierI32<T>)
        ensures
            modif.addend() == self.addend(),
            modif.factor() == value,
    {
        ModifierI32 { add: self.add, mul: value, _marker: PhantomData }
    }
}

impl<T> Clone for ModifierI32<T> {
    fn clone(&self) -> (modif: ModifierI32<T>)
        ensures
            modif == *self,
    {
        ModifierI32 { add: self.add, mul: self.mul, _marker: PhantomData }
    }
}

impl<T> Copy for ModifierI32<T> {

}

impl<T> Modifier for ModifierI32<T> {
    closed spec fn addend(&self) -> int {
        self.add as int
    }

    closed spec fn factor(&self) -> int {
        self.mul as int
    }

    open spec fn hold_addend(sum: int) -> int {
        clamp_i32(sum)
    }

    fn identity() -> (modif: ModifierI32<T>) {
        ModifierI32 { add: 0, mul: 0, _marker: PhantomData }
    }

    fn base() -> (modif: ModifierI32<T>) {
        ModifierI32 { add: 0, mul: ONE, _marker: PhantomData }
    }

    fn combine(&mut self, other: &ModifierI32<T>) {
        self.add = hold_i32(self.add as i64 + other.add as i64);
        self.mul = hold_i64(self.mul as i128 + other.mul as i128);
    }
}

/// A modifier of a stat that is a fixed-point number.
#[derive(Debug)]
pub struct ModifierF32<T> {
    add: i64,
    mul: i64,
    _marker: PhantomData<T>,
}

impl<T> ModifierF32<T> {
    /// How much will be added to the final stat, as a fixed-point number.
    pub fn add(self, value: i64) -> (modif: ModifierF32<T>)
        ensures
            modif.addend() == value,
            modif.factor() == self.factor(),
    {
        ModifierF32 { add: value, mul: self.mul, _marker: PhantomData }
    }

    /// How much will be multiplied to the final stat, as a fixed-point
    /// number.
    pub fn mul(self, value: i64) -> (modif: ModifierF32<T>)
        ensures
            modif.addend() == self.addend(),
            modif.factor() == value,
    {
        ModifierF32 { add: self.add, mul: value, _marker: PhantomData }
    }
}

impl<T> Clone for ModifierF32<T> {
    fn clone(&self) -> (modif: ModifierF32<T>)
        ensures
            modif == *self,
    {
        ModifierF32 { add: self.add, mul: self.mul, _marker: PhantomData }
    }
}

impl<T> Copy for ModifierF32<T> {

}

impl<T> Modifier for ModifierF32<T> {
    closed spec fn addend(&self) -> int {
        self.add as int
    }

    closed spec fn factor(&self) -> int {
        self.mul as int
    }

    open spec fn hold_addend(sum: int) -> int {
        clamp_i64(sum)
    }

    fn identity() -> (modif: ModifierF32<T>) {
        ModifierF32 { add: 0, mul: 0, _marker: PhantomData }
    }

    fn base() -> (modif: ModifierF32<T>) {
        ModifierF32 { add: 0, mul: ONE, _marker: PhantomData }
    }

    fn combine(&mut self, other: &ModifierF32<T>) {
        self.add = hold_i64(self.add as i128 + other.add as i128);
        self.mul = hold_i64(self.mul as i128 + other.mul as i128);
    }
}

/// A computed final stat.
///
/// It is made with the [`StatBundle`] of a base stat and is written by
/// [`propagate_stat`] alone.
#[derive(Debug)]
pub struct ComputedStat<T>(T);

impl<T> View for ComputedStat<T> {
    type V = T;

    closed spec fn view(&self) -> T {
        self.0
    }
}

impl<T> ComputedStat<T> {
    /// The stat as computed.
    pub fn stat(&self) -> (stat: &T)
        ensures
            *stat == self@,
    {
        &self.0
    }
}

impl<T> std::ops::Deref for ComputedStat<T> {
    type Target = T;

    /// Reads the stat as computed.
    fn deref(&self) -> (stat: &T)
        ensures
            *stat == self@,
    {
        &self.0
    }
}

/// A stat of an entity: the base, and what it comes to with all modifiers.
#[derive(Debug)]
pub struct StatBundle<T: Stat> {
    /// The base stat an operator or entity is given.
    pub stat: T,
    /// Computed stat. This is what should be queried for skills and such.
    pub computed_stat: ComputedStat<T>,
}

impl<T: Stat> StatBundle<T> {
    /// Creates a new stat bundle with a base stat.
    pub fn new(base_stat: T) -> (bundle: StatBundle<T>)
        ensures
            bundle.stat == base_stat,
            bundle.computed_stat@ == base_stat,
    {
        StatBundle { computed_stat: ComputedStat(base_stat), stat: base_stat }
    }
}

/// A bundle for enemy stats.
#[derive(Debug)]
pub struct EnemyStatBundle {
    pub hp: StatBundle<MaxHp>,
    pub atk: StatBundle<Atk>,
    pub def: StatBundle<Def>,
    pub res: StatBundle<Res>,
    pub atk_interval: StatBundle<AtkInterval>,
    pub aspd: StatBundle<Aspd>,
    pub move_speed: StatBundle<MoveSpeed>,
}

impl Default for EnemyStatBundle {
    fn default() -> (stats: EnemyStatBundle)
        ensures
            stats.hp.stat.value() == 1500,
            stats.hp.computed_stat@.value() == 1500,
            stats.atk.stat.value() == 600,
            stats.atk.computed_stat@.value() == 600,
            stats.def.stat.value() == 600,
            stats.def.computed_stat@.value() == 600,
            stats.res.stat.value() == 0,
            stats.res.computed_stat@.value() == 0,
            stats.atk_interval.stat.value() == 1_500_000,
            stats.atk_interval.computed_stat@.value() == 1_500_000,
            stats.aspd.stat.value() == 100,
            stats.aspd.computed_stat@.value() == 100,
            stats.move_speed.stat.value() == 500_000,
            stats.move_speed.computed_stat@.value() == 500_000,
    {
        EnemyStatBundle {
            hp: StatBundle::new(MaxHp::default()),
            atk: StatBundle::new(Atk::default()),
            def: StatBundle::new(Def::default()),
            res: StatBundle::new(Res::default()),
            atk_interval: StatBundle::new(AtkInterval::default()),
            aspd: StatBundle::new(Aspd::default()),
            move_speed: StatBundle::new(MoveSpeed::default()),
        }
    }
}

/// A bundle for operator stats.
#[derive(Debug)]
pub struct OperatorStatBundle {
    pub hp: StatBundle<MaxHp>,
    pub atk: StatBundle<Atk>,
    pub def: StatBundle<Def>,
    pub res: StatBundle<Res>,
    pub atk_interval: StatBundle<AtkInterval>,
    pub aspd: StatBundle<Aspd>,
    pub redeploy_time: StatBundle<RedeployTime>,
    pub dp_cost: StatBundle<DpCost>,
    pub block: StatBundle<Block>,
}

impl Default for OperatorStatBundle {
    fn default() -> (stats: OperatorStatBundle)
        ensures
            stats.hp.stat.value() == 1500,
            stats.hp.computed_stat@.value() == 1500,
            stats.atk.stat.value() == 600,
            stats.atk.computed_stat@.value() == 600,
            stats.def.stat.value() == 600,
            stats.def.computed_stat@.value() == 600,
            stats.res.stat.value() == 0,
            stats.res.computed_stat@.value() == 0,
            stats.atk_interval.stat.value() == 1_500_000,
            stats.atk_interval.computed_stat@.value() == 1_500_000,
            stats.aspd.stat.value() == 100,
            stats.aspd.computed_stat@.value() == 100,
            stats.redeploy_time.stat.value() == 60_000_000,
            stats.redeploy_time.computed_stat@.value() == 60_000_000,
            stats.dp_cost.stat.value() == 18,
            stats.dp_cost.computed_stat@.value() == 18,
            stats.block.stat.value() == 2,
            stats.block.computed_stat@.value() == 2,
    {
        OperatorStatBundle {
            hp: StatBundle::new(MaxHp::default()),
            atk: StatBundle::new(Atk::default()),
            def: StatBundle::new(Def::default()),
            res: StatBundle::new(Res::default()),
            atk_interval: StatBundle::new(AtkInterval::default()),
            aspd: StatBundle::new(Aspd::default()),
            redeploy_time: StatBundle::new(RedeployTime::default()),
            dp_cost: StatBundle::new(DpCost::default()),
            block: StatBundle::new(Block::default()),
        }
    }
}

/// The addend of all `modifiers` combined, one after the other, into a
/// modifier that starts out adding nothing.
pub open spec fn folded_addend<M: Modifier>(modifiers: Seq<M>) -> int
    decreases modifiers.len(),
{
    if modifiers.len() == 0 {
        0
    } else {
        M::hold_addend(folded_addend(modifiers.drop_last()) + modifiers.last().addend())
    }
}

/// The factor of all `modifiers` combined, one after the other, into a
/// modifier that starts out multiplying by 1.0.
pub open spec fn folded_factor<M: Modifier>(modifiers: Seq<M>) -> int
    decreases modifiers.len(),
{
    if modifiers.len() == 0 {
        ONE as int
    } else {
        clamp_i64(folded_factor(modifiers.drop_last()) + modifiers.last().factor())
    }
}

/// Computes a stat of an entity from its base and the modifiers found on the
/// entities below it.
///
/// The modifiers are combined in the order given and the outcome is applied
/// to the base stat. The computed stat is written only if this changes it;
/// the result says whether it did.
pub fn propagate_stat<T: Stat>(
    base_stat: &T,
    modifiers: &Vec<T::Modifier>,
    final_stat: &mut ComputedStat<T>,
) -> (changed: bool)
    ensures
        final(final_stat)@.value() == T::apply_value(
            base_stat.value(),
            folded_addend(modifiers@),
            folded_factor(modifiers@),
        ),
        changed == (final(final_stat)@.value() != old(final_stat)@.value()),
        !changed ==> *final(final_stat) == *old(final_stat),
{
    // create an empty modifier
    let mut final_mod = T::Modifier::base();

    // accumulate modifiers
    let mut i: usize = 0;
    while i < modifiers.len()
        invariant
            i <= modifiers.len(),
            final_mod.addend() == folded_addend(modifiers@.take(i as int)),
            final_mod.factor() == folded_factor(modifiers@.take(i as int)),
        decreases modifiers.len() - i,
    {
        proof {
            assert(modifiers@.take(i as int + 1).drop_last() == modifiers@.take(i as int));
            assert(modifiers@.take(i as int + 1).last() == modifiers@[i as int]);
        }
        final_mod.combine(&modifiers[i]);
        i += 1;
    }
    assert(modifiers@.take(i as int) == modifiers@);

    // finalize stat
    let mut result_stat = *base_stat;
    result_stat.apply(&final_mod);

    if !result_stat.same(&final_stat.0) {
        final_stat.0 = result_stat;
        true
    } else {
        false
    }
}

} // verus!
