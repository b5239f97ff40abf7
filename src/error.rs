//! Errors reported by the library.

use vstd::prelude::*;

verus! {

/// Every failure the library reports.
#[derive(Debug, Clone, Copy, PartialEq, Eq)]
pub enum RetisError {
    /// A symbol-table line does not have the `ADDR TYPE NAME` shape.
    InvalidSymbolLine,
    /// No symbol is known at this address.
    UnknownAddress,
    /// No symbol of this name is known.
    UnknownSymbol,
    /// No symbol lies at or below this address.
    NoSymbolNear,
    /// The list of traceable functions is not available.
    NoTraceableFunctions,
    /// The list of traceable events is not available.
    NoTraceableEvents,
    /// A wildcard target could not be turned into a pattern.
    InvalidPattern,
    /// The type information has no entry for this target.
    MissingTypeInfo,
    /// The target exists but cannot be traced.
    NotTraceable,
    /// The probe type in `TYPE:TARGET` is not known.
    InvalidProbeType,
    /// A target matched no traceable entity.
    NoMatch,
    /// A target has too many arguments to describe.
    TooManyArguments,
    /// An option of this kind is already set.
    OptionAlreadySet,
    /// A map of this name is already reused.
    MapAlreadyReused,
    /// A filter of this kind is already registered.
    FilterAlreadyRegistered,
    /// The probe cap would be exceeded.
    ProbeCapacityReached,
    /// The hook cap would be exceeded.
    HookCapacityReached,
    /// A USDT probe accepts a single hook.
    UsdtSingleHook,
    /// A hook is already registered on this userspace probe.
    HookAlreadyRegistered,
    /// This userspace probe type is not supported.
    UnsupportedProbeType,
    /// The debug flag was already set.
    DebugAlreadySet,
    /// A raw record or section is malformed.
    MalformedRecord,
    /// A raw section does not have the size of its structure.
    SectionSizeMismatch,
    /// A raw section carries an unknown data type.
    UnknownDataType,
    /// An owner id does not name a known section.
    UnknownOwner,
    /// A section appears twice in one event.
    DuplicateSection,
    /// The section cannot be built from raw data.
    NotDecodable,
    /// A value does not fit the expected enumeration.
    InvalidValue,
    /// The symbol is not of the kind this probe type attaches to.
    SymbolKindMismatch,
    /// A part of a probe description is empty.
    EmptySegment,
    /// An output could not take or flush events.
    OutputFailed,
}

} // verus!
