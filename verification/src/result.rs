//! `Wirt` (WarnIng Result Trace): a result that also carries warnings and,
//! for an error, the trail of places the error was passed through.

use vstd::prelude::*;
use vstd::string::*;
use core::ops::ControlFlow;
use std::collections::VecDeque;

verus! {

/// The UEFI crate's error (a status code with an optional payload).
#[verifier::external_type_specification]
#[verifier::external_body]
#[verifier::reject_recursive_types(Data)]
pub struct ExUefiError<Data: core::fmt::Debug>(uefi::Error<Data>);

/// Most places kept in an error's trail.
pub const BACK_TRACE_MAX: usize = 1024;

/// Kind of an error.
#[derive(Debug, Clone)]
pub enum ErrorType {
    Success,
    InternalError,
    IoError,
    DeviceError,
    DriverError,
    FirmwareBug,
    NotSupported,
    AllocationFailed,
    InvalidData,
    InvalidArgument,
    OutOfBounds,
    InvalidFileType,
    AlreadyUsed,
    AlreadyInitialized,
    NotFound,
    NotInitialized,
    Timeout,
    /// An error reported by the UEFI firmware.
    UefiError(Box<uefi::Error>),
    /// An ACPI table error, by its description.
    AcpiError(String),
    /// A MADT error, by its description.
    MadtError(String),
    /// An AML interpreter error, by its description.
    AmlError(String),
    /// Any other error, by its description.
    Other(String),
}

impl Default for ErrorType {
    fn default() -> (r: ErrorType)
        ensures
            r is Success,
    {
        ErrorType::Success
    }
}

/// A warning attached to a result.
#[derive(Debug, Hash, PartialEq, PartialOrd, Eq, Ord, Clone, Copy)]
pub enum WarnItem {
    NoWarning,
}

/// A place in the source: file, line and column.
#[derive(Debug, Clone)]
pub struct TraceLocation {
    pub file: String,
    pub line: u32,
    pub column: u32,
}

/// Two locations name the same place.
pub open spec fn same_place(a: TraceLocation, b: TraceLocation) -> bool {
    a.file@ == b.file@ && a.line == b.line && a.column == b.column
}

impl TraceLocation {
    pub fn same_place(&self, other: &TraceLocation) -> (r: bool)
        ensures
            r == same_place(*self, *other),
    {
        self.line == other.line && self.column == other.column && self.file == other.file
    }
}

/// What an error holds: its kind, an optional description and the trail of
/// places it went through, oldest first.
#[derive(Debug, Clone)]
pub struct ErrorDetail {
    pub ty: ErrorType,
    pub desc: Option<String>,
    pub log: VecDeque<TraceLocation>,
}

impl Default for ErrorDetail {
    /// A `Success` kind without description or trail.
    fn default() -> (r: ErrorDetail)
        ensures
            r.ty is Success,
            r.desc is None,
            r.log@.len() == 0,
    {
        ErrorDetail { ty: ErrorType::Success, desc: None, log: VecDeque::new() }
    }
}

impl ErrorDetail {
    /// An error raised at `loc`.
    pub fn new(ty: ErrorType, desc: Option<String>, loc: TraceLocation) -> (r: ErrorDetail)
        ensures
            r.ty == ty,
            r.desc == desc,
            r.log@ == seq![loc],
    {
        let mut log: VecDeque<TraceLocation> = VecDeque::new();
        log.push_back(loc);
        ErrorDetail { ty, desc, log }
    }
}

/// Trail after passing an error through `loc`: nothing changes when `loc` is
/// the last place already recorded; otherwise, once the trail is full, the
/// second oldest place leaves (the oldest when the trail is that short),
/// keeping the place where the error arose, and `loc` is added at the end.
pub open spec fn trace_after(log: Seq<TraceLocation>, loc: TraceLocation) -> Seq<TraceLocation> {
    if log.len() > 0 && same_place(log.last(), loc) {
        log
    } else if log.len() >= BACK_TRACE_MAX {
        if log.len() > 2 {
            log.remove(1).push(loc)
        } else {
            log.drop_first().push(loc)
        }
    } else {
        log.push(loc)
    }
}

/// Description text of an optional static description.
pub open spec fn desc_view(desc: Option<&'static str>) -> Option<Seq<char>> {
    match desc {
        Some(s) => Some(s@),
        None => None,
    }
}

/// Description text of an optional owned description.
pub open spec fn desc_string_view(desc: Option<String>) -> Option<Seq<char>> {
    match desc {
        Some(s) => Some(s@),
        None => None,
    }
}

fn desc_to_string(desc: Option<&'static str>) -> (r: Option<String>)
    ensures
        desc_string_view(r) == desc_view(desc),
{
    match desc {
        Some(s) => Some(String::from_str(s)),
        None => None,
    }
}

/// Passing the trail of an error through a place: the trail never grows
/// beyond `BACK_TRACE_MAX`, the place where the error arose stays first, and
/// the new place is last.
pub proof fn lemma_trace_after(log: Seq<TraceLocation>, loc: TraceLocation)
    requires
        log.len() <= BACK_TRACE_MAX,
    ensures
        trace_after(log, loc).len() <= BACK_TRACE_MAX,
        log.len() > 0 ==> trace_after(log, loc)[0] == log[0],
        same_place(trace_after(log, loc).last(), loc),
        trace_after(log, loc).len() > 0,
{
}

/// Passing an error through a place: a place that differs from the last one
/// recorded in its file, its line or its column (a second `?` on the same
/// line counts) is appended while the trail has room, and also on a full
/// trail it becomes the last entry; only the very same file, line and column
/// as the last entry is skipped.
pub proof fn lemma_trace_new_place(log: Seq<TraceLocation>, loc: TraceLocation)
    ensures
        log.len() == 0 ==> trace_after(log, loc) == seq![loc],
        log.len() > 0 && log.len() < BACK_TRACE_MAX && (log.last().file@ != loc.file@ || log.last().line != loc.line
            || log.last().column != loc.column) ==> trace_after(log, loc) == log.push(loc),
        log.len() > 0 && (log.last().file@ != loc.file@ || log.last().line != loc.line || log.last().column
            != loc.column) ==> trace_after(log, loc).last() == loc,
        log.len() > 0 && log.last().file@ == loc.file@ && log.last().line == loc.line && log.last().column
            == loc.column ==> trace_after(log, loc) == log,
{
    assert(Seq::<TraceLocation>::empty().push(loc) =~= seq![loc]);
}

/// Records that an error passed through `loc`.
pub fn trace_push(log: &mut VecDeque<TraceLocation>, loc: TraceLocation)
    ensures
        final(log)@ == trace_after(old(log)@, loc),
{
    let n = log.len();
    if n > 0 && log[n - 1].same_place(&loc) {
        return;
    }
    if n >= BACK_TRACE_MAX {
        if n > 2 {
            log.remove(1);
        } else {
            log.pop_front();
        }
    }
    log.push_back(loc);
}

/// A result that carries warnings, and for an error its trail.
#[derive(Debug)]
pub struct Wirt<Item> {
    data: Result<Item, Box<ErrorDetail>>,
    warns: Vec<WarnItem>,
}

impl<Item> Default for Wirt<Item> {
    /// An error of kind `Success` without description, trail or warnings: a
    /// result that was never filled in.
    fn default() -> (r: Wirt<Item>)
        ensures
            r.outcome() matches Err(d) && d.ty is Success && d.desc is None && d.log@.len() == 0,
            r.warnings() == Seq::<WarnItem>::empty(),
    {
        Wirt { data: Err(Box::new(ErrorDetail::default())), warns: Vec::new() }
    }
}

impl<Item> Wirt<Item> {
    /// Outcome: the item, or the error.
    pub closed spec fn outcome(&self) -> Result<Item, ErrorDetail> {
        match self.data {
            Ok(i) => Ok(i),
            Err(d) => Err(*d),
        }
    }

    /// Warnings, in the order they were added.
    pub closed spec fn warnings(&self) -> Seq<WarnItem> {
        self.warns@
    }

    /// A success without warnings.
    pub fn new_ok(item: Item) -> (r: Wirt<Item>)
        ensures
            r.outcome() == Ok::<Item, ErrorDetail>(item),
            r.warnings() == Seq::<WarnItem>::empty(),
    {
        Wirt { data: Ok(item), warns: Vec::new() }
    }

    /// An error raised at `loc`, with a static description.
    pub fn new_err(error: ErrorType, desc: Option<&'static str>, loc: TraceLocation) -> (r: Wirt<Item>)
        ensures
            r.outcome() matches Err(d) && d.ty == error && desc_string_view(d.desc) == desc_view(desc)
                && d.log@ == seq![loc],
            r.warnings() == Seq::<WarnItem>::empty(),
    {
        Wirt { data: Err(Box::new(ErrorDetail::new(error, desc_to_string(desc), loc))), warns: Vec::new() }
    }

    /// An error raised at `loc`, with an owned description.
    #[allow(non_snake_case)]
    pub fn Err_string(error: ErrorType, desc: Option<String>, loc: TraceLocation) -> (r: Wirt<Item>)
        ensures
            r.outcome() matches Err(d) && d.ty == error && d.desc == desc && d.log@ == seq![loc],
            r.warnings() == Seq::<WarnItem>::empty(),
    {
        Wirt { data: Err(Box::new(ErrorDetail::new(error, desc, loc))), warns: Vec::new() }
    }

    pub fn add_warn(&mut self, warn: WarnItem)
        ensures
            final(self).outcome() == old(self).outcome(),
            final(self).warnings() == old(self).warnings().push(warn),
    {
        self.warns.push(warn);
    }

    pub fn add_warns(&mut self, warns: Vec<WarnItem>)
        ensures
            final(self).outcome() == old(self).outcome(),
            final(self).warnings() == old(self).warnings() + warns@,
    {
        let mut i: usize = 0;
        while i < warns.len()
            invariant
                i <= warns.len(),
                self.outcome() == old(self).outcome(),
                self.warnings() == old(self).warnings() + warns@.take(i as int),
            decreases warns.len() - i,
        {
            self.warns.push(warns[i]);
            i += 1;
            assert(self.warnings() =~= old(self).warnings() + warns@.take(i as int));
        }
        assert(warns@.take(warns.len() as int) =~= warns@);
    }

    pub fn is_err(&self) -> (r: bool)
        ensures
            r == self.outcome() is Err,
    {
        self.data.is_err()
    }

    pub fn have_warn(&self) -> (r: bool)
        ensures
            r == (self.warnings().len() != 0),
    {
        self.warns.len() != 0
    }

    pub fn is_ok(&self) -> (r: bool)
        ensures
            r == self.outcome() is Ok,
    {
        self.data.is_ok()
    }

    /// The result itself when it is an error.
    pub fn err(&self) -> (r: Option<&Wirt<Item>>)
        ensures
            r is Some <==> self.outcome() is Err,
            r matches Some(w) ==> w == self,
    {
        if self.is_err() {
            Some(self)
        } else {
            None
        }
    }

    /// The error, if any.
    pub fn get_error_desc(self) -> (r: Option<Box<ErrorDetail>>)
        ensures
            match self.outcome() {
                Ok(_) => r is None,
                Err(d) => r matches Some(b) && *b == d,
            },
    {
        match self.data {
            Ok(_) => None,
            Err(d) => Some(d),
        }
    }

    /// The item, if any.
    pub fn ok(self) -> (r: Option<Item>)
        ensures
            match self.outcome() {
                Ok(i) => r == Some(i),
                Err(_) => r is None,
            },
    {
        match self.data {
            Ok(i) => Some(i),
            Err(_) => None,
        }
    }

    /// The warnings.
    pub fn warn(&self) -> (r: &[WarnItem])
        ensures
            r@ == self.warnings(),
    {
        self.warns.as_slice()
    }

    /// The item of a success.
    pub fn unwrap(self) -> (r: Item)
        requires
            self.outcome() is Ok,
        ensures
            self.outcome() == Ok::<Item, ErrorDetail>(r),
    {
        self.data.unwrap()
    }

    /// The item of a success; the caller has checked that it is one.
    pub fn unwrap_unchecked(self) -> (r: Item)
        requires
            self.outcome() is Ok,
        ensures
            self.outcome() == Ok::<Item, ErrorDetail>(r),
    {
        self.data.unwrap()
    }

    /// The item of a success (`msg` says what was expected).
    pub fn expect(self, msg: &str) -> (r: Item)
        requires
            self.outcome() is Ok,
        ensures
            self.outcome() == Ok::<Item, ErrorDetail>(r),
    {
        self.data.unwrap()
    }

    /// The error of a failure.
    pub fn unwrap_err(self) -> (r: Box<ErrorDetail>)
        requires
            self.outcome() is Err,
        ensures
            self.outcome() == Err::<Item, ErrorDetail>(*r),
    {
        match self.data {
            Ok(_) => {
                proof {
                    assert(false);
                }
                Box::new(ErrorDetail { ty: ErrorType::Success, desc: None, log: VecDeque::new() })
            },
            Err(d) => d,
        }
    }

    /// Records that the error passed through `loc`; a success is left as it is.
    pub fn log(&mut self, loc: TraceLocation)
        ensures
            final(self).warnings() == old(self).warnings(),
            match old(self).outcome() {
                Ok(i) => final(self).outcome() == Ok::<Item, ErrorDetail>(i),
                Err(d) => final(self).outcome() matches Err(d2) && d2.ty == d.ty && d2.desc == d.desc
                    && d2.log@ == trace_after(d.log@, loc),
            },
    {
        match &mut self.data {
            Ok(_) => {},
            Err(detail) => {
                trace_push(&mut detail.log, loc);
            },
        }
    }

    /// The item, if any, left in place.
    pub fn value(&self) -> (r: Option<&Item>)
        ensures
            r is Some <==> self.outcome() is Ok,
            r matches Some(i) ==> self.outcome() == Ok::<Item, ErrorDetail>(*i),
    {
        match &self.data {
            Ok(i) => Some(i),
            Err(_) => None,
        }
    }

    /// The error, if any, left in place.
    pub fn detail(&self) -> (r: Option<&ErrorDetail>)
        ensures
            r is Some <==> self.outcome() is Err,
            r matches Some(d) ==> self.outcome() == Err::<Item, ErrorDetail>(*d),
    {
        match &self.data {
            Ok(_) => None,
            Err(d) => Some(d),
        }
    }

    /// Turns a UEFI result into a `Wirt`, raising a UEFI error at `loc`.
    pub fn try_raise_uefi(err: Result<Item, uefi::Error>, detail: Option<&'static str>, loc: TraceLocation) -> (r: Wirt<Item>)
        ensures
            r.warnings() == Seq::<WarnItem>::empty(),
            match err {
                Ok(i) => r.outcome() == Ok::<Item, ErrorDetail>(i),
                Err(e) => r.outcome() matches Err(d) && d.ty == ErrorType::UefiError(Box::new(e))
                    && desc_string_view(d.desc) == desc_view(detail) && d.log@ == seq![loc],
            },
    {
        match err {
            Ok(x) => Self::new_ok(x),
            Err(e) => Self::new_err(ErrorType::UefiError(Box::new(e)), detail, loc),
        }
    }

    /// Turns the result of an ACPI table operation (its error given by its
    /// description) into a `Wirt`, raising an ACPI error at `loc`.
    pub fn try_raise_acpi(err: Result<Item, String>, detail: Option<&'static str>, loc: TraceLocation) -> (r: Wirt<Item>)
        ensures
            r.warnings() == Seq::<WarnItem>::empty(),
            match err {
                Ok(i) => r.outcome() == Ok::<Item, ErrorDetail>(i),
                Err(e) => r.outcome() matches Err(d) && d.ty == ErrorType::AcpiError(e)
                    && desc_string_view(d.desc) == desc_view(detail) && d.log@ == seq![loc],
            },
    {
        match err {
            Ok(x) => Self::new_ok(x),
            Err(e) => Self::new_err(ErrorType::AcpiError(e), detail, loc),
        }
    }

    /// Turns the result of an AML operation (its error given by its
    /// description) into a `Wirt`, raising an AML error at `loc`.
    pub fn try_raise_aml(err: Result<Item, String>, detail: Option<&'static str>, loc: TraceLocation) -> (r: Wirt<Item>)
        ensures
            r.warnings() == Seq::<WarnItem>::empty(),
            match err {
                Ok(i) => r.outcome() == Ok::<Item, ErrorDetail>(i),
                Err(e) => r.outcome() matches Err(d) && d.ty == ErrorType::AmlError(e)
                    && desc_string_view(d.desc) == desc_view(detail) && d.log@ == seq![loc],
            },
    {
        match err {
            Ok(x) => Self::new_ok(x),
            Err(e) => Self::new_err(ErrorType::AmlError(e), detail, loc),
        }
    }

    /// A success holding the value, or the given error raised at `loc`.
    pub fn from_option(data: Option<Item>, e_type: ErrorType, detail: Option<&'static str>, loc: TraceLocation) -> (r: Wirt<Item>)
        ensures
            r.warnings() == Seq::<WarnItem>::empty(),
            match data {
                Some(i) => r.outcome() == Ok::<Item, ErrorDetail>(i),
                None => r.outcome() matches Err(d) && d.ty == e_type && desc_string_view(d.desc)
                    == desc_view(detail) && d.log@ == seq![loc],
            },
    {
        match data {
            Some(item) => Self::new_ok(item),
            None => Self::new_err(e_type, detail, loc),
        }
    }

    /// A success holding `output`.
    pub fn from_output(output: Item) -> (r: Wirt<Item>)
        ensures
            r.outcome() == Ok::<Item, ErrorDetail>(output),
            r.warnings() == Seq::<WarnItem>::empty(),
    {
        Self::new_ok(output)
    }

    /// Splits a result for `?`: a success continues with its item, an error
    /// breaks out as itself.
    pub fn branch(self) -> (r: ControlFlow<Wirt<Item>, Item>)
        ensures
            match self.outcome() {
                Ok(i) => r == ControlFlow::<Wirt<Item>, Item>::Continue(i),
                Err(_) => r matches ControlFlow::Break(w) && w == self,
            },
    {
        if self.data.is_ok() {
            ControlFlow::Continue(self.data.unwrap())
        } else {
            ControlFlow::Break(self)
        }
    }

    /// The error of `residual`, passed on through `loc` into a result of
    /// another item type; its warnings come along.
    pub fn from_residual<T>(residual: Wirt<T>, loc: TraceLocation) -> (r: Wirt<Item>)
        requires
            residual.outcome() is Err,
        ensures
            r.warnings() == residual.warnings(),
            residual.outcome() matches Err(d) && r.outcome() matches Err(d2) && d2.ty == d.ty
                && d2.desc == d.desc && d2.log@ == trace_after(d.log@, loc),
    {
        let mut residual = residual;
        residual.log(loc);
        let Wirt { data, warns } = residual;
        match data {
            Ok(_) => {
                proof {
                    assert(false);
                }
                Wirt { data: Err(Box::new(ErrorDetail { ty: ErrorType::Success, desc: None, log: VecDeque::new() })), warns }
            },
            Err(detail) => Wirt { data: Err(detail), warns },
        }
    }
}

} // verus!
