//! Early boot bookkeeping: watched entry points, the per-processor GS area,
//! where the main kernel structure is placed in its allocation, the boot
//! entropy and what a failed initialisation step leads to.

use vstd::prelude::*;
use crate::result::{ErrorType, TraceLocation, Wirt};

verus! {

/// Flags of a watched entry point.
#[derive(Debug, Clone, Copy, PartialEq, Eq)]
pub struct State {
    pub bits: u8,
}

/// The entry point was torn down.
pub const STATE_DEST: u8 = 1;
/// The entry point is running.
pub const STATE_RUNNING: u8 = 2;
/// The entry point failed.
pub const STATE_ERR: u8 = 4;

impl State {
    /// No flag set.
    pub fn empty() -> (r: State)
        ensures
            r.bits == 0,
    {
        State { bits: 0 }
    }

    /// Every flag of `other` is set.
    pub fn contains(&self, other: State) -> (r: bool)
        ensures
            r == (self.bits & other.bits == other.bits),
    {
        self.bits & other.bits == other.bits
    }
}

/// `usize::reverse_bits`: the bits of `x` in reverse order, bit `i` of the
/// result being bit `usize::BITS - 1 - i` of `x`.
#[verifier::external_body]
fn reverse_bits(x: usize) -> (r: usize)
    ensures
        forall|i: usize|
            i < usize::BITS ==> #[trigger] ((r >> i) & 1) == (x >> ((usize::BITS - 1 - i) as usize)) & 1,
{
    x.reverse_bits()
}

/// An entry point under watch, stored scrambled: its address mixed with its
/// level, and its address with the bits reversed.
#[derive(Debug, Clone, Copy, PartialEq, Eq)]
pub struct WatchingItem {
    pub ptr: u64,
    pub reversed_ptr: u64,
    pub level: u8,
    pub state: State,
}

impl WatchingItem {
    /// Watches the entry point at address `addr` with priority `level`.
    pub fn new(addr: usize, level: u8) -> (r: WatchingItem)
        ensures
            r.ptr == (addr ^ (level as usize) ^ 7usize) as u64,
            forall|i: usize|
                i < usize::BITS ==> #[trigger] ((r.reversed_ptr as usize >> i) & 1) == (addr >> ((
                usize::BITS - 1 - i) as usize)) & 1,
            r.reversed_ptr == r.reversed_ptr as usize as u64,
            r.level == level,
            r.state.bits == 0,
    {
        let reversed = reverse_bits(addr);
        assert(reversed as u64 as usize == reversed) by (bit_vector);
        WatchingItem {
            ptr: (addr ^ level as usize ^ 7) as u64,
            reversed_ptr: reversed as u64,
            level,
            state: State::empty(),
        }
    }

    pub fn is_none(&self) -> (r: bool)
        ensures
            r == (self.ptr == 0),
    {
        self.ptr == 0
    }

    pub fn is_dest(&self) -> (r: bool)
        ensures
            r == (self.state.bits & STATE_DEST == STATE_DEST),
    {
        self.state.contains(State { bits: STATE_DEST })
    }

    pub fn is_running(&self) -> (r: bool)
        ensures
            r == (self.state.bits & STATE_RUNNING == STATE_RUNNING),
    {
        self.state.contains(State { bits: STATE_RUNNING })
    }

    pub fn is_err(&self) -> (r: bool)
        ensures
            r == (self.state.bits & STATE_ERR == STATE_ERR),
    {
        self.state.contains(State { bits: STATE_ERR })
    }
}

/// Kernel data reached through the GS area.
#[derive(Debug, Default, Clone, Copy, PartialEq, Eq)]
pub struct GsMainData {}

/// The per-processor area that the GS base register points to.
#[derive(Debug, Default, Clone, Copy, PartialEq, Eq)]
pub struct Gs {
    pub self_ptr: u64,
    pub app_stack: u64,
    pub kernel_stack: u64,
    main_data: GsMainData,
}

impl Gs {
    /// Address of the area, application stack and kernel stack.
    pub closed spec fn pointers(&self) -> (u64, u64, u64) {
        (self.self_ptr, self.app_stack, self.kernel_stack)
    }

    /// The area for a processor with the given stacks; the address of the
    /// area itself is filled in once the area has its place in memory.
    pub fn new(app_stack: u64, kernel_stack: u64) -> (r: Gs)
        ensures
            r.pointers() == (0u64, app_stack, kernel_stack),
    {
        Gs { self_ptr: 0, app_stack, kernel_stack, main_data: GsMainData {  } }
    }

    /// The kernel data of the area.
    pub fn main_data(&self) -> (r: &GsMainData)
        ensures
            *r == (GsMainData {  }),
    {
        &self.main_data
    }
}

/// Bytes of stack below the main structure.
pub const MAIN_STACK_SIZE: usize = 1024;

/// Random padding between the stack and the main structure: below 65536 and
/// a multiple of 16.
pub open spec fn padding_of(raw_entropy: usize) -> nat {
    ((raw_entropy % 65536) & !0xfusize) as nat
}

/// Size of the allocation that holds the stack, the padding and the main
/// structure with room for its alignment, and the padding used.
pub fn main_allocation_size(raw_entropy: usize, main_size: usize, main_align: usize) -> (r: (usize, usize))
    requires
        MAIN_STACK_SIZE + 65536 + main_size + main_align <= usize::MAX,
    ensures
        r.0 == padding_of(raw_entropy),
        r.0 < 65536,
        r.0 & 0xf == 0,
        r.1 == MAIN_STACK_SIZE + r.0 + main_size + main_align,
{
    let entropy = (raw_entropy % 65536) & !0xf;
    let m = raw_entropy % 65536;
    assert(m & !0xfusize <= m && (m & !0xfusize) & 0xf == 0) by (bit_vector);
    let total_size = MAIN_STACK_SIZE + entropy + main_size + main_align;
    (entropy, total_size)
}

/// Top of the stack and address of the main structure inside an allocation
/// that starts at `base`: the stack top is the end of the stack rounded down
/// to 16 bytes, the structure follows the padding, aligned to `main_align`.
pub fn main_placement(base: usize, entropy: usize, main_align: usize) -> (r: (usize, usize))
    requires
        main_align > 0,
        main_align & (main_align - 1) as usize == 0,
        base + MAIN_STACK_SIZE + entropy + main_align <= usize::MAX,
    ensures
        r.0 == (base + MAIN_STACK_SIZE) as usize & !0xfusize,
        r.1 == (r.0 + entropy + main_align) as usize & !((main_align - 1) as usize),
{
    let stack_top = (base + MAIN_STACK_SIZE) & !0xf;
    let s = base + MAIN_STACK_SIZE;
    assert(s & !0xfusize <= s) by (bit_vector);
    let struct_addr = (stack_top + entropy + main_align) & !(main_align - 1);
    (stack_top, struct_addr)
}

/// The main structure lands inside its allocation, after the stack and the
/// padding, aligned: with the allocation size and placement computed above,
/// the structure's bytes lie between the stack top plus the padding and the
/// end of the allocation, its address is a multiple of its alignment, and the
/// stack keeps at least 1009 bytes.
pub proof fn lemma_main_placement(base: usize, entropy: usize, main_size: usize, main_align: usize, total: usize, stack_top: usize, struct_addr: usize)
    requires
        main_align > 0,
        main_align & (main_align - 1) as usize == 0,
        total == MAIN_STACK_SIZE + entropy + main_size + main_align,
        base + total <= usize::MAX,
        stack_top == (base + MAIN_STACK_SIZE) as usize & !0xfusize,
        struct_addr == (stack_top + entropy + main_align) as usize & !((main_align - 1) as usize),
    ensures
        stack_top + entropy < struct_addr,
        struct_addr + main_size <= base + total,
        struct_addr & (main_align - 1) as usize == 0,
        stack_top >= base + MAIN_STACK_SIZE - 15,
{
    let s = (base + MAIN_STACK_SIZE) as usize;
    assert(s & !0xfusize <= s && s - (s & !0xfusize) < 16) by (bit_vector);
    let x = (stack_top + entropy + main_align) as usize;
    let a = main_align;
    let m = (a - 1) as usize;
    assert((x & !m) <= x && x - (x & !m) < a && (x & !m) & m == 0) by (bit_vector)
        requires
            a > 0,
            a & m == 0,
            m == (a - 1) as usize,
    ;
}

/// Entropy for the boot layout: the firmware random number, the counter and
/// the nanoseconds of the wall clock combined by exclusive or, a missing
/// source counting as 0.
pub fn get_boot_entropy(rng: Option<usize>, tsc: usize, time_nanos: Option<usize>) -> (r: usize)
    ensures
        r == (match rng {
            Some(v) => v,
            None => 0usize,
        }) ^ tsc ^ (match time_nanos {
            Some(v) => v,
            None => 0usize,
        }),
{
    let entropy = match rng {
        Some(v) => v,
        None => 0,
    };
    let time_val = match time_nanos {
        Some(v) => v,
        None => 0,
    };
    entropy ^ tsc ^ time_val
}

/// What a failed step of the first initialisation leads to.
#[derive(Debug, Clone, Copy, PartialEq, Eq)]
pub enum InitFailure {
    /// The display could not be set up: the kernel stops.
    Fatal,
    /// The processor microcode could not be loaded: a security warning.
    MicrocodeWarning,
    /// Any other step: a warning.
    Warning,
}

/// Consequence of the failure of initialisation step `index` (the fourth
/// step sets up the display, the second loads microcode).
pub fn classify_init_failure(index: usize) -> (r: InitFailure)
    ensures
        index == 3 ==> r == InitFailure::Fatal,
        index == 1 ==> r == InitFailure::MicrocodeWarning,
        index != 3 && index != 1 ==> r == InitFailure::Warning,
{
    if index == 3 {
        InitFailure::Fatal
    } else if index == 1 {
        InitFailure::MicrocodeWarning
    } else {
        InitFailure::Warning
    }
}

/// Whether the interrupt helper of the kernel has been made. The kernel
/// keeps one of these for its whole run.
#[derive(Debug)]
pub struct InterruptHelperOnce {
    created: bool,
}

/// A call of `InterruptHelper::init` succeeds exactly when no helper was
/// made before it.
pub open spec fn helper_init_succeeds(created: bool) -> bool {
    !created
}

/// Whether a helper exists after `k` calls of `InterruptHelper::init`,
/// starting from `created`: after any call one does.
pub open spec fn helper_created_after(created: bool, k: nat) -> bool {
    created || k > 0
}

impl InterruptHelperOnce {
    /// Whether the helper was made.
    pub closed spec fn created(&self) -> bool {
        self.created
    }

    /// No helper made yet.
    pub fn new() -> (r: InterruptHelperOnce)
        ensures
            !r.created(),
    {
        InterruptHelperOnce { created: false }
    }

    /// Whether the helper was made.
    pub fn is_created(&self) -> (r: bool)
        ensures
            r == self.created(),
    {
        self.created
    }
}

/// Proof that the interrupt descriptor table of the kernel was installed;
/// only one can ever be made.
#[derive(Debug)]
pub struct InterruptHelper;

impl InterruptHelper {
    /// The helper, when none was made before; otherwise an `AlreadyUsed`
    /// error raised at `loc`. Afterwards the helper counts as made. The caller
    /// installs the descriptor table when this succeeds.
    pub fn init(once: &mut InterruptHelperOnce, loc: TraceLocation) -> (r: Wirt<InterruptHelper>)
        ensures
            final(once).created() == helper_created_after(old(once).created(), 1),
            r.outcome() is Ok <==> helper_init_succeeds(old(once).created()),
            !helper_init_succeeds(old(once).created()) ==> (r.outcome() matches Err(d) && d.ty is AlreadyUsed
                && d.log@ == seq![loc] && (d.desc matches Some(s) && s@ == "interrupt helper already created."@)),
    {
        if once.created {
            return Wirt::new_err(ErrorType::AlreadyUsed, Some("interrupt helper already created."), loc);
        }
        once.created = true;
        Wirt::new_ok(InterruptHelper)
    }
}

/// The interrupt helper is made once: starting from a kernel that made none,
/// the call that follows `k` earlier calls of `InterruptHelper::init`
/// succeeds exactly when `k` is 0, and after any call the helper exists.
pub proof fn lemma_interrupt_helper_once(k: nat)
    ensures
        helper_init_succeeds(helper_created_after(false, k)) <==> k == 0,
        k > 0 ==> helper_created_after(false, k),
        forall|c: bool| helper_created_after(helper_created_after(c, k), 1) == helper_created_after(c, k + 1),
{
}

} // verus!
