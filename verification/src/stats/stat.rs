//! Most commonly used, shared stats.
//!
//! Each stat has a domain: no stat is negative, and some have an upper
//! limit. A value outside the domain is replaced by the nearest value in it.

use vstd::prelude::*;

use crate::fixed::{clamp_i32, clamp_i64, hold_i64, mul_fixed, trunc_div, ONE};
use crate::stats::{ModifierF32, ModifierI32, Stat};

verus! {

/// The maximum HP of an entity.
#[derive(Clone, Copy, Debug)]
pub struct MaxHp(i32);

impl Default for MaxHp {
    fn default() -> (stat: MaxHp)
        ensures
            stat.value() == 1500,
    {
        MaxHp(1500)
    }
}

impl MaxHp {
    #[verifier::type_invariant]
    spec fn in_domain(self) -> bool {
        0 <= self.0
    }

    /// The value of the domain nearest to `value`. The domain holds the
    /// numbers that fit the stat and are not negative.
    pub open spec fn domain(value: int) -> int {
        if value < 0 {
            0
        } else if value > i32::MAX {
            i32::MAX as int
        } else {
            value
        }
    }

    fn to_domain(value: i64) -> (held: i32)
        ensures
            held == Self::domain(value as int),
    {
        if value < 0 {
            0
        } else if value > i32::MAX as i64 {
            i32::MAX
        } else {
            value as i32
        }
    }

    /// Creates a new stat.
    pub fn new(value: i32) -> (stat: MaxHp)
        ensures
            stat.value() == Self::domain(value as int),
    {
        MaxHp(Self::to_domain(value as i64))
    }

    /// Gets the stat.
    pub fn get(&self) -> (value: i32)
        ensures
            value == self.value(),
            value == Self::domain(value as int),
    {
        proof {
            use_type_invariant(self);
        }
        self.0
    }

    /// Sets the stat.
    pub fn set(&mut self, value: i32)
        ensures
            final(self).value() == Self::domain(value as int),
    {
        self.0 = Self::to_domain(value as i64);
    }
}

impl Stat for MaxHp {
    type Modifier = ModifierI32<MaxHp>;

    closed spec fn value(&self) -> int {
        self.0 as int
    }

    open spec fn apply_value(value: int, addend: int, factor: int) -> int {
        Self::domain(clamp_i32(trunc_div(value * factor, ONE as int)) + addend)
    }

    fn apply(&mut self, modif: &ModifierI32<MaxHp>) {
        // multiply then add
        let scaled: i64 = mul_fixed(self.0 as i64, modif.mul);
        let scaled: i64 = if scaled < i32::MIN as i64 {
            i32::MIN as i64
        } else if scaled > i32::MAX as i64 {
            i32::MAX as i64
        } else {
            scaled
        };
        // hold to the domain
        self.0 = Self::to_domain(scaled + modif.add as i64);
    }

    fn modif() -> (modif: ModifierI32<MaxHp>) {
        <ModifierI32<MaxHp> as crate::stats::Modifier>::identity()
    }

    fn same(&self, other: &MaxHp) -> (same: bool) {
        self.0 == other.0
    }
}

/// The ATK of an entity. Auto-attacks deal 100% ATK as damage.
#[derive(Clone, Copy, Debug)]
pub struct Atk(i32);

impl Default for Atk {
    fn default() -> (stat: Atk)
        ensures
            stat.value() == 600,
    {
        Atk(600)
    }
}

impl Atk {
    #[verifier::type_invariant]
    spec fn in_domain(self) -> bool {
        0 <= self.0
    }

    /// The value of the domain nearest to `value`. The domain holds the
    /// numbers that fit the stat and are not negative.
    pub open spec fn domain(value: int) -> int {
        if value < 0 {
            0
        } else if value > i32::MAX {
            i32::MAX as int
        } else {
            value
        }
    }

    fn to_domain(value: i64) -> (held: i32)
        ensures
            held == Self::domain(value as int),
    {
        if value < 0 {
            0
        } else if value > i32::MAX as i64 {
            i32::MAX
        } else {
            value as i32
        }
    }

    /// Creates a new stat.
    pub fn new(value: i32) -> (stat: Atk)
        ensures
            stat.value() == Self::domain(value as int),
    {
        Atk(Self::to_domain(value as i64))
    }

    /// Gets the stat.
    pub fn get(&self) -> (value: i32)
        ensures
            value == self.value(),
            value == Self::domain(value as int),
    {
        proof {
            use_type_invariant(self);
        }
        self.0
    }

    /// Sets the stat.
    pub fn set(&mut self, value: i32)
        ensures
            final(self).value() == Self::domain(value as int),
    {
        self.0 = Self::to_domain(value as i64);
    }
}

impl Stat for Atk {
    type Modifier = ModifierI32<Atk>;

    closed spec fn value(&self) -> int {
        self.0 as int
    }

    open spec fn apply_value(value: int, addend: int, factor: int) -> int {
        Self::domain(clamp_i32(trunc_div(value * factor, ONE as int)) + addend)
    }

    fn apply(&mut self, modif: &ModifierI32<Atk>) {
        // multiply then add
        let scaled: i64 = mul_fixed(self.0 as i64, modif.mul);
        let scaled: i64 = if scaled < i32::MIN as i64 {
            i32::MIN as i64
        } else if scaled > i32::MAX as i64 {
            i32::MAX as i64
        } else {
            scaled
        };
        // hold to the domain
        self.0 = Self::to_domain(scaled + modif.add as i64);
    }

    fn modif() -> (modif: ModifierI32<Atk>) {
        <ModifierI32<Atk> as crate::stats::Modifier>::identity()
    }

    fn same(&self, other: &Atk) -> (same: bool) {
        self.0 == other.0
    }
}

/// The DEF of an entity. Reduces Physical damage taken by a flat amount.
#[derive(Clone, Copy, Debug)]
pub struct Def(i32);

impl Default for Def {
    fn default() -> (stat: Def)
        ensures
            stat.value() == 600,
    {
        Def(600)
    }
}

impl Def {
    #[verifier::type_invariant]
    spec fn in_domain(self) -> bool {
        0 <= self.0
    }

    /// The value of the domain nearest to `value`. The domain holds the
    /// numbers that fit the stat and are not negative.
    pub open spec fn domain(value: int) -> int {
        if value < 0 {
            0
        } else if value > i32::MAX {
            i32::MAX as int
        } else {
            value
        }
    }

    fn to_domain(value: i64) -> (held: i32)
        ensures
            held == Self::domain(value as int),
    {
        if value < 0 {
            0
        } else if value > i32::MAX as i64 {
            i32::MAX
        } else {
            value as i32
        }
    }

    /// Creates a new stat.
    pub fn new(value: i32) -> (stat: Def)
        ensures
            stat.value() == Self::domain(value as int),
    {
        Def(Self::to_domain(value as i64))
    }

    /// Gets the stat.
    pub fn get(&self) -> (value: i32)
        ensures
            value == self.value(),
            value == Self::domain(value as int),
    {
        proof {
            use_type_invariant(self);
        }
        self.0
    }

    /// Sets the stat.
    pub fn set(&mut self, value: i32)
        ensures
            final(self).value() == Self::domain(value as int),
    {
        self.0 = Self::to_domain(value as i64);
    }
}

impl Stat for Def {
    type Modifier = ModifierI32<Def>;

    closed spec fn value(&self) -> int {
        self.0 as int
    }

    open spec fn apply_value(value: int, addend: int, factor: int) -> int {
        Self::domain(clamp_i32(trunc_div(value * factor, ONE as int)) + addend)
    }

    fn apply(&mut self, modif: &ModifierI32<Def>) {
        // multiply then add
        let scaled: i64 = mul_fixed(self.0 as i64, modif.mul);
        let scaled: i64 = if scaled < i32::MIN as i64 {
            i32::MIN as i64
        } else if scaled > i32::MAX as i64 {
            i32::MAX as i64
        } else {
            scaled
        };
        // hold to the domain
        self.0 = Self::to_domain(scaled + modif.add as i64);
    }

    fn modif() -> (modif: ModifierI32<Def>) {
        <ModifierI32<Def> as crate::stats::Modifier>::identity()
    }

    fn same(&self, other: &Def) -> (same: bool) {
        self.0 == other.0
    }
}

/// The RES of an entity, a whole number between 0 and 100. Arts damage is
/// multiplied by it.
#[derive(Clone, Copy, Debug)]
pub struct Res(i32);

impl Default for Res {
    fn default() -> (stat: Res)
        ensures
            stat.value() == 0,
    {
        Res(0)
    }
}

impl Res {
    #[verifier::type_invariant]
    spec fn in_domain(self) -> bool {
        0 <= self.0 <= 100
    }

    /// The value of the domain nearest to `value`. The domain holds the
    /// numbers that fit the stat and are between 0 and 100.
    pub open spec fn domain(value: int) -> int {
        if value < 0 {
            0
        } else if value > 100 {
            100
        } else {
            value
        }
    }

    fn to_domain(value: i64) -> (held: i32)
        ensures
            held == Self::domain(value as int),
    {
        if value < 0 {
            0
        } else if value > 100 {
            100
        } else {
            value as i32
        }
    }

    /// Creates a new stat.
    pub fn new(value: i32) -> (stat: Res)
        ensures
            stat.value() == Self::domain(value as int),
    {
        Res(Self::to_domain(value as i64))
    }

    /// Gets the stat.
    pub fn get(&self) -> (value: i32)
        ensures
            value == self.value(),
            value == Self::domain(value as int),
    {
        proof {
            use_type_invariant(self);
        }
        self.0
    }

    /// Sets the stat.
    pub fn set(&mut self, value: i32)
        ensures
            final(self).value() == Self::domain(value as int),
    {
        self.0 = Self::to_domain(value as i64);
    }
}

impl Stat for Res {
    type Modifier = ModifierI32<Res>;

    closed spec fn value(&self) -> int {
        self.0 as int
    }

    open spec fn apply_value(value: int, addend: int, factor: int) -> int {
        Self::domain(clamp_i32(trunc_div(value * factor, ONE as int)) + addend)
    }

    fn apply(&mut self, modif: &ModifierI32<Res>) {
        // multiply then add
        let scaled: i64 = mul_fixed(self.0 as i64, modif.mul);
        let scaled: i64 = if scaled < i32::MIN as i64 {
            i32::MIN as i64
        } else if scaled > i32::MAX as i64 {
            i32::MAX as i64
        } else {
            scaled
        };
        // hold to the domain
        self.0 = Self::to_domain(scaled + modif.add as i64);
    }

    fn modif() -> (modif: ModifierI32<Res>) {
        <ModifierI32<Res> as crate::stats::Modifier>::identity()
    }

    fn same(&self, other: &Res) -> (same: bool) {
        self.0 == other.0
    }
}

/// The attack interval of an entity, in seconds as a fixed-point number.
///
/// Determines the base speed at which an operator or enemy can attack.
#[derive(Clone, Copy, Debug)]
pub struct AtkInterval(i64);

impl Default for AtkInterval {
    fn default() -> (stat: AtkInterval)
        ensures
            stat.value() == 1_500_000,
    {
        AtkInterval(1_500_000)
    }
}

impl AtkInterval {
    #[verifier::type_invariant]
    spec fn in_domain(self) -> bool {
        0 <= self.0
    }

    /// The value of the domain nearest to `value`. The domain holds the
    /// numbers that fit the stat and are not negative.
    pub open spec fn domain(value: int) -> int {
        if value < 0 {
            0
        } else if value > i64::MAX {
            i64::MAX as int
        } else {
            value
        }
    }

    fn to_domain(value: i128) -> (held: i64)
        ensures
            held == Self::domain(value as int),
    {
        if value < 0 {
            0
        } else {
            hold_i64(value)
        }
    }

    /// Creates a new stat.
    pub fn new(value: i64) -> (stat: AtkInterval)
        ensures
            stat.value() == Self::domain(value as int),
    {
        AtkInterval(Self::to_domain(value as i128))
    }

    /// Gets the stat.
    pub fn get(&self) -> (value: i64)
        ensures
            value == self.value(),
            value == Self::domain(value as int),
    {
        proof {
            use_type_invariant(self);
        }
        self.0
    }

    /// Sets the stat.
    pub fn set(&mut self, value: i64)
        ensures
            final(self).value() == Self::domain(value as int),
    {
        self.0 = Self::to_domain(value as i128);
    }
}

impl Stat for AtkInterval {
    type Modifier = ModifierF32<AtkInterval>;

    closed spec fn value(&self) -> int {
        self.0 as int
    }

    open spec fn apply_value(value: int, addend: int, factor: int) -> int {
        Self::domain(clamp_i64(trunc_div(value * factor, ONE as int)) + addend)
    }

    fn apply(&mut self, modif: &ModifierF32<AtkInterval>) {
        // multiply then add
        let scaled: i64 = mul_fixed(self.0, modif.mul);
        // hold to the domain
        self.0 = Self::to_domain(scaled as i128 + modif.add as i128);
    }

    fn modif() -> (modif: ModifierF32<AtkInterval>) {
        <ModifierF32<AtkInterval> as crate::stats::Modifier>::identity()
    }

    fn same(&self, other: &AtkInterval) -> (same: bool) {
        self.0 == other.0
    }
}

/// Attack speed, an additional modifier to [`AtkInterval`].
///
/// Every 100 ASPD is 1.0x attack speed.
#[derive(Clone, Copy, Debug)]
pub struct Aspd(i32);

impl Default for Aspd {
    fn default() -> (stat: Aspd)
        ensures
            stat.value() == 100,
    {
        Aspd(100)
    }
}

impl Aspd {
    #[verifier::type_invariant]
    spec fn in_domain(self) -> bool {
        0 <= self.0
    }

    /// The value of the domain nearest to `value`. The domain holds the
    /// numbers that fit the stat and are not negative.
    pub open spec fn domain(value: int) -> int {
        if value < 0 {
            0
        } else if value > i32::MAX {
            i32::MAX as int
        } else {
            value
        }
    }

    fn to_domain(value: i64) -> (held: i32)
        ensures
            held == Self::domain(value as int),
    {
        if value < 0 {
            0
        } else if value > i32::MAX as i64 {
            i32::MAX
        } else {
            value as i32
        }
    }

    /// Creates a new stat.
    pub fn new(value: i32) -> (stat: Aspd)
        ensures
            stat.value() == Self::domain(value as int),
    {
        Aspd(Self::to_domain(value as i64))
    }

    /// Gets the stat.
    pub fn get(&self) -> (value: i32)
        ensures
            value == self.value(),
            value == Self::domain(value as int),
    {
        proof {
            use_type_invariant(self);
        }
        self.0
    }

    /// Sets the stat.
    pub fn set(&mut self, value: i32)
        ensures
            final(self).value() == Self::domain(value as int),
    {
        self.0 = Self::to_domain(value as i64);
    }
}

impl Stat for Aspd {
    type Modifier = ModifierI32<Aspd>;

    closed spec fn value(&self) -> int {
        self.0 as int
    }

    open spec fn apply_value(value: int, addend: int, factor: int) -> int {
        Self::domain(clamp_i32(trunc_div(value * factor, ONE as int)) + addend)
    }

    fn apply(&mut self, modif: &ModifierI32<Aspd>) {
        // multiply then add
        let scaled: i64 = mul_fixed(self.0 as i64, modif.mul);
        let scaled: i64 = if scaled < i32::MIN as i64 {
            i32::MIN as i64
        } else if scaled > i32::MAX as i64 {
            i32::MAX as i64
        } else {
            scaled
        };
        // hold to the domain
        self.0 = Self::to_domain(scaled + modif.add as i64);
    }

    fn modif() -> (modif: ModifierI32<Aspd>) {
        <ModifierI32<Aspd> as crate::stats::Modifier>::identity()
    }

    fn same(&self, other: &Aspd) -> (same: bool) {
        self.0 == other.0
    }
}

/// **Enemy only** Movement speed in tiles/second, as a fixed-point number.
#[derive(Clone, Copy, Debug)]
pub struct MoveSpeed(i64);

impl Default for MoveSpeed {
    fn default() -> (stat: MoveSpeed)
        ensures
            stat.value() == 500_000,
    {
        MoveSpeed(500_000)
    }
}

impl MoveSpeed {
    #[verifier::type_invariant]
    spec fn in_domain(self) -> bool {
        0 <= self.0
    }

    /// The value of the domain nearest to `value`. The domain holds the
    /// numbers that fit the stat and are not negative.
    pub open spec fn domain(value: int) -> int {
        if value < 0 {
            0
        } else if value > i64::MAX {
            i64::MAX as int
        } else {
            value
        }
    }

    fn to_domain(value: i128) -> (held: i64)
        ensures
            held == Self::domain(value as int),
    {
        if value < 0 {
            0
        } else {
            hold_i64(value)
        }
    }

    /// Creates a new stat.
    pub fn new(value: i64) -> (stat: MoveSpeed)
        ensures
            stat.value() == Self::domain(value as int),
    {
        MoveSpeed(Self::to_domain(value as i128))
    }

    /// Gets the stat.
    pub fn get(&self) -> (value: i64)
        ensures
            value == self.value(),
            value == Self::domain(value as int),
    {
        proof {
            use_type_invariant(self);
        }
        self.0
    }

    /// Sets the stat.
    pub fn set(&mut self, value: i64)
        ensures
            final(self).value() == Self::domain(value as int),
    {
        self.0 = Self::to_domain(value as i128);
    }
}

impl Stat for MoveSpeed {
    type Modifier = ModifierF32<MoveSpeed>;

    closed spec fn value(&self) -> int {
        self.0 as int
    }

    open spec fn apply_value(value: int, addend: int, factor: int) -> int {
        Self::domain(clamp_i64(trunc_div(value * factor, ONE as int)) + addend)
    }

    fn apply(&mut self, modif: &ModifierF32<MoveSpeed>) {
        // multiply then add
        let scaled: i64 = mul_fixed(self.0, modif.mul);
        // hold to the domain
        self.0 = Self::to_domain(scaled as i128 + modif.add as i128);
    }

    fn modif() -> (modif: ModifierF32<MoveSpeed>) {
        <ModifierF32<MoveSpeed> as crate::stats::Modifier>::identity()
    }

    fn same(&self, other: &MoveSpeed) -> (same: bool) {
        self.0 == other.0
    }
}

/// **Operator only** Redeployment time in seconds, as a fixed-point number.
///
/// Determines how fast an operator can be redeployed after retreating.
#[derive(Clone, Copy, Debug)]
pub struct RedeployTime(i64);

impl Default for RedeployTime {
    fn default() -> (stat: RedeployTime)
        ensures
            stat.value() == 60_000_000,
    {
        RedeployTime(60_000_000)
    }
}

impl RedeployTime {
    #[verifier::type_invariant]
    spec fn in_domain(self) -> bool {
        0 <= self.0
    }

    /// The value of the domain nearest to `value`. The domain holds the
    /// numbers that fit the stat and are not negative.
    pub open spec fn domain(value: int) -> int {
        if value < 0 {
            0
        } else if value > i64::MAX {
            i64::MAX as int
        } else {
            value
        }
    }

    fn to_domain(value: i128) -> (held: i64)
        ensures
            held == Self::domain(value as int),
    {
        if value < 0 {
            0
        } else {
            hold_i64(value)
        }
    }

    /// Creates a new stat.
    pub fn new(value: i64) -> (stat: RedeployTime)
        ensures
            stat.value() == Self::domain(value as int),
    {
        RedeployTime(Self::to_domain(value as i128))
    }

    /// Gets the stat.
    pub fn get(&self) -> (value: i64)
        ensures
            value == self.value(),
            value == Self::domain(value as int),
    {
        proof {
            use_type_invariant(self);
        }
        self.0
    }

    /// Sets the stat.
    pub fn set(&mut self, value: i64)
        ensures
            final(self).value() == Self::domain(value as int),
    {
        self.0 = Self::to_domain(value as i128);
    }
}

impl Stat for RedeployTime {
    type Modifier = ModifierF32<RedeployTime>;

    closed spec fn value(&self) -> int {
        self.0 as int
    }

    open spec fn apply_value(value: int, addend: int, factor: int) -> int {
        Self::domain(clamp_i64(trunc_div(value * factor, ONE as int)) + addend)
    }

    fn apply(&mut self, modif: &ModifierF32<RedeployTime>) {
        // multiply then add
        let scaled: i64 = mul_fixed(self.0, modif.mul);
        // hold to the domain
        self.0 = Self::to_domain(scaled as i128 + modif.add as i128);
    }

    fn modif() -> (modif: ModifierF32<RedeployTime>) {
        <ModifierF32<RedeployTime> as crate::stats::Modifier>::identity()
    }

    fn same(&self, other: &RedeployTime) -> (same: bool) {
        self.0 == other.0
    }
}

/// **Operator only** How much DP must be spent to deploy an operator.
#[derive(Clone, Copy, Debug)]
pub struct DpCost(i32);

impl Default for DpCost {
    fn default() -> (stat: DpCost)
        ensures
            stat.value() == 18,
    {
        DpCost(18)
    }
}

impl DpCost {
    #[verifier::type_invariant]
    spec fn in_domain(self) -> bool {
        0 <= self.0
    }

    /// The value of the domain nearest to `value`. The domain holds the
    /// numbers that fit the stat and are not negative.
    pub open spec fn domain(value: int) -> int {
        if value < 0 {
            0
        } else if value > i32::MAX {
            i32::MAX as int
        } else {
            value
        }
    }

    fn to_domain(value: i64) -> (held: i32)
        ensures
            held == Self::domain(value as int),
    {
        if value < 0 {
            0
        } else if value > i32::MAX as i64 {
            i32::MAX
        } else {
            value as i32
        }
    }

    /// Creates a new stat.
    pub fn new(value: i32) -> (stat: DpCost)
        ensures
            stat.value() == Self::domain(value as int),
    {
        DpCost(Self::to_domain(value as i64))
    }

    /// Gets the stat.
    pub fn get(&self) -> (value: i32)
        ensures
            value == self.value(),
            value == Self::domain(value as int),
    {
        proof {
            use_type_invariant(self);
        }
        self.0
    }

    /// Sets the stat.
    pub fn set(&mut self, value: i32)
        ensures
            final(self).value() == Self::domain(value as int),
    {
        self.0 = Self::to_domain(value as i64);
    }
}

impl Stat for DpCost {
    type Modifier = ModifierI32<DpCost>;

    closed spec fn value(&self) -> int {
        self.0 as int
    }

    open spec fn apply_value(value: int, addend: int, factor: int) -> int {
        Self::domain(clamp_i32(trunc_div(value * factor, ONE as int)) + addend)
    }

    fn apply(&mut self, modif: &ModifierI32<DpCost>) {
        // multiply then add
        let scaled: i64 = mul_fixed(self.0 as i64, modif.mul);
        let scaled: i64 = if scaled < i32::MIN as i64 {
            i32::MIN as i64
        } else if scaled > i32::MAX as i64 {
            i32::MAX as i64
        } else {
            scaled
        };
        // hold to the domain
        self.0 = Self::to_domain(scaled + modif.add as i64);
    }

    fn modif() -> (modif: ModifierI32<DpCost>) {
        <ModifierI32<DpCost> as crate::stats::Modifier>::identity()
    }

    fn same(&self, other: &DpCost) -> (same: bool) {
        self.0 == other.0
    }
}

/// **Operator only** Block count determines how many enemies an operator can
/// block.
#[derive(Clone, Copy, Debug)]
pub struct Block(i32);

impl Default for Block {
    fn default() -> (stat: Block)
        ensures
            stat.value() == 2,
    {
        Block(2)
    }
}

impl Block {
    #[verifier::type_invariant]
    spec fn in_domain(self) -> bool {
        0 <= self.0
    }

    /// The value of the domain nearest to `value`. The domain holds the
    /// numbers that fit the stat and are not negative.
    pub open spec fn domain(value: int) -> int {
        if value < 0 {
            0
        } else if value > i32::MAX {
            i32::MAX as int
        } else {
            value
        }
    }

    fn to_domain(value: i64) -> (held: i32)
        ensures
            held == Self::domain(value as int),
    {
        if value < 0 {
            0
        } else if value > i32::MAX as i64 {
            i32::MAX
        } else {
            value as i32
        }
    }

    /// Creates a new stat.
    pub fn new(value: i32) -> (stat: Block)
        ensures
            stat.value() == Self::domain(value as int),
    {
        Block(Self::to_domain(value as i64))
    }

    /// Gets the stat.
    pub fn get(&self) -> (value: i32)
        ensures
            value == self.value(),
            value == Self::domain(value as int),
    {
        proof {
            use_type_invariant(self);
        }
        self.0
    }

    /// Sets the stat.
    pub fn set(&mut self, value: i32)
        ensures
            final(self).value() == Self::domain(value as int),
    {
        self.0 = Self::to_domain(value as i64);
    }
}

impl Stat for Block {
    type Modifier = ModifierI32<Block>;

    closed spec fn value(&self) -> int {
        self.0 as int
    }

    open spec fn apply_value(value: int, addend: int, factor: int) -> int {
        Self::domain(clamp_i32(trunc_div(value * factor, ONE as int)) + addend)
    }

    fn apply(&mut self, modif: &ModifierI32<Block>) {
        // multiply then add
        let scaled: i64 = mul_fixed(self.0 as i64, modif.mul);
        let scaled: i64 = if scaled < i32::MIN as i64 {
            i32::MIN as i64
        } else if scaled > i32::MAX as i64 {
            i32::MAX as i64
        } else {
            scaled
        };
        // hold to the domain
        self.0 = Self::to_domain(scaled + modif.add as i64);
    }

    fn modif() -> (modif: ModifierI32<Block>) {
        <ModifierI32<Block> as crate::stats::Modifier>::identity()
    }

    fn same(&self, other: &Block) -> (same: bool) {
        self.0 == other.0
    }
}

} // verus!
