//! The kernel gates: which of the optional kernels a process runs.
//!
//! Every gate has a flag with three positions. `on` and `off` decide by
//! themselves, whatever the environment says; `auto` defers to the environment.

use vstd::prelude::*;

verus! {

/// The position of the `--turbo-flash` flag.
#[derive(Debug, Clone, Copy, PartialEq, Eq, Structural)]
pub enum TurboFlashMode {
    On,
    Off,
    Auto,
}

/// The position of the `--planar-flash-decode` flag.
#[derive(Debug, Clone, Copy, PartialEq, Eq, Structural)]
pub enum PlanarFlashDecodeMode {
    On,
    Off,
    Auto,
}

/// The position of the `--fused-qk` flag.
#[derive(Debug, Clone, Copy, PartialEq, Eq, Structural)]
pub enum FusedQkMode {
    On,
    Off,
    Auto,
}

/// The position of the `--sparse-attn` flag.
#[derive(Debug, Clone, Copy, PartialEq, Eq, Structural)]
pub enum SparseAttnMode {
    On,
    Off,
    Auto,
}

/// The position of the `--rot-k-fused` flag.
#[derive(Debug, Clone, Copy, PartialEq, Eq, Structural)]
pub enum RotKFusedMode {
    On,
    Off,
    Auto,
}

/// A flag position, whichever gate it belongs to.
#[derive(Debug, Clone, Copy, PartialEq, Eq, Structural)]
pub enum GateMode {
    On,
    Off,
    Auto,
}

impl GateMode {
    /// What the position makes of the environment's value.
    pub open spec fn gate(self, env: bool) -> bool {
        match self {
            GateMode::On => true,
            GateMode::Off => false,
            GateMode::Auto => env,
        }
    }

    pub open spec fn text(self) -> Seq<char> {
        match self {
            GateMode::On => "on"@,
            GateMode::Off => "off"@,
            GateMode::Auto => "auto"@,
        }
    }

    /// What the position makes of the environment's value.
    pub fn resolve(self, env: bool) -> (r: bool)
        ensures
            r == self.gate(env),
    {
        match self {
            GateMode::On => true,
            GateMode::Off => false,
            GateMode::Auto => env,
        }
    }

    /// The position as it is written on the command line.
    pub fn as_str(self) -> (r: &'static str)
        ensures
            r@ == self.text(),
    {
        match self {
            GateMode::On => "on",
            GateMode::Off => "off",
            GateMode::Auto => "auto",
        }
    }
}

impl TurboFlashMode {
    pub open spec fn position(self) -> GateMode {
        match self {
            TurboFlashMode::On => GateMode::On,
            TurboFlashMode::Off => GateMode::Off,
            TurboFlashMode::Auto => GateMode::Auto,
        }
    }

    /// The position, whichever gate it belongs to.
    pub fn mode(self) -> (r: GateMode)
        ensures
            r == self.position(),
    {
        match self {
            TurboFlashMode::On => GateMode::On,
            TurboFlashMode::Off => GateMode::Off,
            TurboFlashMode::Auto => GateMode::Auto,
        }
    }
}

impl PlanarFlashDecodeMode {
    pub open spec fn position(self) -> GateMode {
        match self {
            PlanarFlashDecodeMode::On => GateMode::On,
            PlanarFlashDecodeMode::Off => GateMode::Off,
            PlanarFlashDecodeMode::Auto => GateMode::Auto,
        }
    }

    /// The position, whichever gate it belongs to.
    pub fn mode(self) -> (r: GateMode)
        ensures
            r == self.position(),
    {
        match self {
            PlanarFlashDecodeMode::On => GateMode::On,
            PlanarFlashDecodeMode::Off => GateMode::Off,
            PlanarFlashDecodeMode::Auto => GateMode::Auto,
        }
    }
}

impl FusedQkMode {
    pub open spec fn position(self) -> GateMode {
        match self {
            FusedQkMode::On => GateMode::On,
            FusedQkMode::Off => GateMode::Off,
            FusedQkMode::Auto => GateMode::Auto,
        }
    }

    /// The position, whichever gate it belongs to.
    pub fn mode(self) -> (r: GateMode)
        ensures
            r == self.position(),
    {
        match self {
            FusedQkMode::On => GateMode::On,
            FusedQkMode::Off => GateMode::Off,
            FusedQkMode::Auto => GateMode::Auto,
        }
    }
}

impl SparseAttnMode {
    pub open spec fn position(self) -> GateMode {
        match self {
            SparseAttnMode::On => GateMode::On,
            SparseAttnMode::Off => GateMode::Off,
            SparseAttnMode::Auto => GateMode::Auto,
        }
    }

    /// The position, whichever gate it belongs to.
    pub fn mode(self) -> (r: GateMode)
        ensures
            r == self.position(),
    {
        match self {
            SparseAttnMode::On => GateMode::On,
            SparseAttnMode::Off => GateMode::Off,
            SparseAttnMode::Auto => GateMode::Auto,
        }
    }
}

impl RotKFusedMode {
    pub open spec fn position(self) -> GateMode {
        match self {
            RotKFusedMode::On => GateMode::On,
            RotKFusedMode::Off => GateMode::Off,
            RotKFusedMode::Auto => GateMode::Auto,
        }
    }

    /// The position, whichever gate it belongs to.
    pub fn mode(self) -> (r: GateMode)
        ensures
            r == self.position(),
    {
        match self {
            RotKFusedMode::On => GateMode::On,
            RotKFusedMode::Off => GateMode::Off,
            RotKFusedMode::Auto => GateMode::Auto,
        }
    }
}

impl Default for TurboFlashMode {
    fn default() -> (r: TurboFlashMode)
        ensures
            r == TurboFlashMode::Auto,
    {
        TurboFlashMode::Auto
    }
}

impl Default for PlanarFlashDecodeMode {
    fn default() -> (r: PlanarFlashDecodeMode)
        ensures
            r == PlanarFlashDecodeMode::Auto,
    {
        PlanarFlashDecodeMode::Auto
    }
}

impl Default for FusedQkMode {
    fn default() -> (r: FusedQkMode)
        ensures
            r == FusedQkMode::Auto,
    {
        FusedQkMode::Auto
    }
}

impl Default for SparseAttnMode {
    fn default() -> (r: SparseAttnMode)
        ensures
            r == SparseAttnMode::Auto,
    {
        SparseAttnMode::Auto
    }
}

impl Default for RotKFusedMode {
    fn default() -> (r: RotKFusedMode)
        ensures
            r == RotKFusedMode::Auto,
    {
        RotKFusedMode::Auto
    }
}

/// The kernel set of a process, with the shortest sequences at which two of the
/// kernels take over.
#[derive(Debug, Clone, Copy, PartialEq, Eq, Structural)]
pub struct DispatchPolicy {
    pub fused_qk: bool,
    pub fused_qk_min: usize,
    pub sparse_attn: bool,
    pub turbo_flash: bool,
    pub turbo_flash_lock: bool,
    pub turbo_flash_min: usize,
    pub planar_flash_decode: bool,
    pub rot_k_fused: bool,
}

/// The message for a gate that was resolved.
pub open spec fn gate_text(resolved_on: bool) -> Seq<char> {
    if resolved_on {
        "kernel gate resolved ON"@
    } else {
        "kernel gate resolved OFF"@
    }
}

/// The message for a gate that was resolved.
pub fn log_gate(resolved_on: bool) -> (r: &'static str)
    ensures
        r@ == gate_text(resolved_on),
{
    if resolved_on {
        "kernel gate resolved ON"
    } else {
        "kernel gate resolved OFF"
    }
}

/// What is worth saying about the resolution of `--turbo-flash`.
#[derive(Debug, Clone, Copy, PartialEq, Eq, Structural)]
pub struct TurboFlashNotes {
    /// The flag is off and the environment asks for the kernel, in vain.
    pub env_ignored: bool,
    /// The flag is auto and the environment turns the kernel on, which costs
    /// decode speed. Worth a warning.
    pub env_costly: bool,
    /// The lock was asked for by its flag.
    pub lock_flag: bool,
}

/// Resolves `--turbo-flash` and `--turbo-flash-lock`. The lock is on if its flag
/// is set or the environment asks for it.
pub fn resolve_turbo_flash(
    turbo_flash: TurboFlashMode,
    turbo_flash_lock: bool,
    env: &DispatchPolicy,
) -> (r: (bool, bool, TurboFlashNotes))
    ensures
        r.0 == turbo_flash.position().gate(env.turbo_flash),
        r.1 == (turbo_flash_lock || env.turbo_flash_lock),
        r.2.env_ignored == (turbo_flash == TurboFlashMode::Off && env.turbo_flash),
        r.2.env_costly == (turbo_flash == TurboFlashMode::Auto && env.turbo_flash),
        r.2.lock_flag == turbo_flash_lock,
{
    let resolved_on: bool = turbo_flash.mode().resolve(env.turbo_flash);
    let notes: TurboFlashNotes = TurboFlashNotes {
        env_ignored: turbo_flash == TurboFlashMode::Off && env.turbo_flash,
        env_costly: turbo_flash == TurboFlashMode::Auto && env.turbo_flash,
        lock_flag: turbo_flash_lock,
    };
    (resolved_on, turbo_flash_lock || env.turbo_flash_lock, notes)
}

/// Resolves `--planar-flash-decode`.
pub fn resolve_planar_flash_decode(mode: PlanarFlashDecodeMode, env: &DispatchPolicy) -> (r: bool)
    ensures
        r == mode.position().gate(env.planar_flash_decode),
{
    mode.mode().resolve(env.planar_flash_decode)
}

/// Resolves `--fused-qk`.
pub fn resolve_fused_qk(mode: FusedQkMode, env: &DispatchPolicy) -> (r: bool)
    ensures
        r == mode.position().gate(env.fused_qk),
{
    mode.mode().resolve(env.fused_qk)
}

/// Resolves `--sparse-attn`.
pub fn resolve_sparse_attn(mode: SparseAttnMode, env: &DispatchPolicy) -> (r: bool)
    ensures
        r == mode.position().gate(env.sparse_attn),
{
    mode.mode().resolve(env.sparse_attn)
}

/// Resolves `--rot-k-fused`.
pub fn resolve_rot_k_fused(mode: RotKFusedMode, env: &DispatchPolicy) -> (r: bool)
    ensures
        r == mode.position().gate(env.rot_k_fused),
{
    mode.mode().resolve(env.rot_k_fused)
}

/// The kernel set that the flags and the environment make. The two thresholds
/// have no flag and come from the environment as they are.
pub open spec fn dispatch_policy(
    fused_qk: GateMode,
    sparse_attn: GateMode,
    turbo_flash: GateMode,
    turbo_flash_lock: bool,
    planar_flash_decode: GateMode,
    rot_k_fused: GateMode,
    env: DispatchPolicy,
) -> DispatchPolicy {
    DispatchPolicy {
        fused_qk: fused_qk.gate(env.fused_qk),
        sparse_attn: sparse_attn.gate(env.sparse_attn),
        turbo_flash: turbo_flash.gate(env.turbo_flash),
        turbo_flash_lock: turbo_flash_lock || env.turbo_flash_lock,
        planar_flash_decode: planar_flash_decode.gate(env.planar_flash_decode),
        rot_k_fused: rot_k_fused.gate(env.rot_k_fused),
        ..env
    }
}

/// Folds the flags and the fallback values into the kernel set of the process.
pub fn resolve_dispatch_policy(
    fused_qk: FusedQkMode,
    sparse_attn: SparseAttnMode,
    turbo_flash: TurboFlashMode,
    turbo_flash_lock: bool,
    planar_flash_decode: PlanarFlashDecodeMode,
    rot_k_fused: RotKFusedMode,
    env: DispatchPolicy,
) -> (r: DispatchPolicy)
    ensures
        r == dispatch_policy(
            fused_qk.position(),
            sparse_attn.position(),
            turbo_flash.position(),
            turbo_flash_lock,
            planar_flash_decode.position(),
            rot_k_fused.position(),
            env,
        ),
{
    let turbo: (bool, bool, TurboFlashNotes) = resolve_turbo_flash(
        turbo_flash,
        turbo_flash_lock,
        &env,
    );
    DispatchPolicy {
        fused_qk: resolve_fused_qk(fused_qk, &env),
        fused_qk_min: env.fused_qk_min,
        sparse_attn: resolve_sparse_attn(sparse_attn, &env),
        turbo_flash: turbo.0,
        turbo_flash_lock: turbo.1,
        turbo_flash_min: env.turbo_flash_min,
        planar_flash_decode: resolve_planar_flash_decode(planar_flash_decode, &env),
        rot_k_fused: resolve_rot_k_fused(rot_k_fused, &env),
    }
}

/// An explicit flag decides by itself: two environments lead to the same gate.
pub proof fn explicit_flag_overrides_the_environment(mode: GateMode, env: bool, other: bool)
    requires
        mode != GateMode::Auto,
    ensures
        mode.gate(env) == mode.gate(other),
        mode.gate(env) == (mode == GateMode::On),
{
}

/// With every flag on auto the process runs the environment's kernel set, and
/// resolving twice changes nothing more.
pub proof fn auto_flags_keep_the_environment(
    fused_qk: GateMode,
    sparse_attn: GateMode,
    turbo_flash: GateMode,
    lock: bool,
    planar_flash_decode: GateMode,
    rot_k_fused: GateMode,
    env: DispatchPolicy,
)
    ensures
        dispatch_policy(
            GateMode::Auto,
            GateMode::Auto,
            GateMode::Auto,
            false,
            GateMode::Auto,
            GateMode::Auto,
            env,
        ) == env,
        ({
            let once = dispatch_policy(
                fused_qk,
                sparse_attn,
                turbo_flash,
                lock,
                planar_flash_decode,
                rot_k_fused,
                env,
            );
            dispatch_policy(
                fused_qk,
                sparse_attn,
                turbo_flash,
                lock,
                planar_flash_decode,
                rot_k_fused,
                once,
            ) == once
        }),
{
}

/// The two positions of the `--rotor-qjl` flag.
#[derive(Debug, Clone, Copy, PartialEq, Eq, Structural)]
pub enum RotorQjlArg {
    On,
    Off,
}

impl RotorQjlArg {
    /// Whether the flag is on.
    pub fn enabled(self) -> (r: bool)
        ensures
            r == (self == RotorQjlArg::On),
    {
        matches!(self, RotorQjlArg::On)
    }
}

/// The two positions of the `--planar-fused-qk` flag.
#[derive(Debug, Clone, Copy, PartialEq, Eq, Structural)]
pub enum PlanarFusedQkArg {
    On,
    Off,
}

impl PlanarFusedQkArg {
    /// Whether the flag is on.
    pub fn enabled(self) -> (r: bool)
        ensures
            r == (self == PlanarFusedQkArg::On),
    {
        matches!(self, PlanarFusedQkArg::On)
    }
}

/// Whether a gate is as its flag says: on or off where the flag says so, and otherwise as
/// the environment has it.
pub open spec fn follows(gate: bool, on: bool, off: bool, env: bool) -> bool {
    &&& on ==> gate
    &&& off ==> !gate
    &&& !on && !off ==> gate == env
}

/// Each gate follows its own flag.
pub proof fn each_gate_follows_its_flag(
    planar_flash_decode: PlanarFlashDecodeMode,
    fused_qk: FusedQkMode,
    sparse_attn: SparseAttnMode,
    rot_k_fused: RotKFusedMode,
    env: &DispatchPolicy,
    a: bool,
    b: bool,
    c: bool,
    d: bool,
)
    requires
        call_ensures(resolve_planar_flash_decode, (planar_flash_decode, env), a),
        call_ensures(resolve_fused_qk, (fused_qk, env), b),
        call_ensures(resolve_sparse_attn, (sparse_attn, env), c),
        call_ensures(resolve_rot_k_fused, (rot_k_fused, env), d),
    ensures
        follows(
            a,
            planar_flash_decode is On,
            planar_flash_decode is Off,
            env.planar_flash_decode,
        ),
        follows(b, fused_qk is On, fused_qk is Off, env.fused_qk),
        follows(c, sparse_attn is On, sparse_attn is Off, env.sparse_attn),
        follows(d, rot_k_fused is On, rot_k_fused is Off, env.rot_k_fused),
{
}

/// The turbo gate follows its flag, and the lock is on where the flag or the environment
/// asks for it. What the environment asked for in vain, or at a price, is noted.
pub proof fn the_turbo_gate_follows_its_flag(
    mode: TurboFlashMode,
    lock: bool,
    env: &DispatchPolicy,
    r: (bool, bool, TurboFlashNotes),
)
    requires
        call_ensures(resolve_turbo_flash, (mode, lock, env), r),
    ensures
        follows(r.0, mode is On, mode is Off, env.turbo_flash),
        lock || env.turbo_flash_lock ==> r.1,
        !lock && !env.turbo_flash_lock ==> !r.1,
        r.2.env_ignored <==> env.turbo_flash && mode is Off,
        r.2.env_costly <==> env.turbo_flash && mode is Auto,
        r.2.lock_flag == lock,
        r.2.env_costly ==> r.0,
        r.2.env_ignored ==> !r.0,
{
}

/// In the kernel set of a process every gate follows its own flag, and the thresholds are
/// those of the environment.
pub proof fn a_kernel_set_follows_its_flags(
    fused_qk: FusedQkMode,
    sparse_attn: SparseAttnMode,
    turbo_flash: TurboFlashMode,
    lock: bool,
    planar_flash_decode: PlanarFlashDecodeMode,
    rot_k_fused: RotKFusedMode,
    env: DispatchPolicy,
    r: DispatchPolicy,
)
    requires
        call_ensures(
            resolve_dispatch_policy,
            (fused_qk, sparse_attn, turbo_flash, lock, planar_flash_decode, rot_k_fused, env),
            r,
        ),
    ensures
        follows(r.fused_qk, fused_qk is On, fused_qk is Off, env.fused_qk),
        follows(r.sparse_attn, sparse_attn is On, sparse_attn is Off, env.sparse_attn),
        follows(r.turbo_flash, turbo_flash is On, turbo_flash is Off, env.turbo_flash),
        follows(
            r.planar_flash_decode,
            planar_flash_decode is On,
            planar_flash_decode is Off,
            env.planar_flash_decode,
        ),
        follows(r.rot_k_fused, rot_k_fused is On, rot_k_fused is Off, env.rot_k_fused),
        follows(r.turbo_flash_lock, lock, false, env.turbo_flash_lock),
        r.fused_qk_min == env.fused_qk_min,
        r.turbo_flash_min == env.turbo_flash_min,
{
}

/// A flag with two positions is on where it says so.
pub proof fn a_switch_is_on_or_off(a: RotorQjlArg, b: PlanarFusedQkArg, x: bool, y: bool)
    requires
        call_ensures(RotorQjlArg::enabled, (a,), x),
        call_ensures(PlanarFusedQkArg::enabled, (b,), y),
    ensures
        x <==> a is On,
        y <==> b is On,
{
}

/// A gate's position is spelled as on the command line, and its outcome is logged as what it
/// is.
pub proof fn a_gate_is_spelled_as_it_is(m: GateMode, s: &'static str, on: bool, line: &'static str)
    requires
        call_ensures(GateMode::as_str, (m,), s),
        call_ensures(log_gate, (on,), line),
    ensures
        m is On ==> s@ == "on"@,
        m is Off ==> s@ == "off"@,
        m is Auto ==> s@ == "auto"@,
        on ==> line@ == "kernel gate resolved ON"@,
        !on ==> line@ == "kernel gate resolved OFF"@,
{
}

/// A flag that is not given leaves its gate to the environment.
pub proof fn a_flag_that_is_not_given_is_auto(
    a: TurboFlashMode,
    b: PlanarFlashDecodeMode,
    c: FusedQkMode,
    d: SparseAttnMode,
    e: RotKFusedMode,
)
    requires
        call_ensures(TurboFlashMode::default, (), a),
        call_ensures(PlanarFlashDecodeMode::default, (), b),
        call_ensures(FusedQkMode::default, (), c),
        call_ensures(SparseAttnMode::default, (), d),
        call_ensures(RotKFusedMode::default, (), e),
    ensures
        a is Auto,
        b is Auto,
        c is Auto,
        d is Auto,
        e is Auto,
{
}

} // verus!
