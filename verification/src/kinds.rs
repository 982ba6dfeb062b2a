//! The vocabulary of the store: element types, series types, owners, units and time
//! references, each with its spelling.
use crate::text::{decimal, decimal_text, digits_value, padded, same_text, two_digits};
use vstd::prelude::*;

verus! {

/// The physical type of one stored number.
#[derive(Clone, Copy, Debug, PartialEq, Eq, Structural)]
pub enum Dtype {
    F64,
    F32,
    I64,
    I32,
    I16,
    I8,
    U64,
    U32,
    U16,
    U8,
    Bool,
}

impl Dtype {
    /// How many bytes one number takes.
    pub open spec fn bytes(self) -> nat {
        match self {
            Dtype::F64 | Dtype::I64 | Dtype::U64 => 8,
            Dtype::F32 | Dtype::I32 | Dtype::U32 => 4,
            Dtype::I16 | Dtype::U16 => 2,
            Dtype::I8 | Dtype::U8 | Dtype::Bool => 1,
        }
    }

    /// How many bytes one number takes.
    pub fn size(self) -> (r: usize)
        ensures
            r == self.bytes(),
            1 <= r <= 8,
    {
        match self {
            Dtype::F64 | Dtype::I64 | Dtype::U64 => 8,
            Dtype::F32 | Dtype::I32 | Dtype::U32 => 4,
            Dtype::I16 | Dtype::U16 => 2,
            Dtype::I8 | Dtype::U8 | Dtype::Bool => 1,
        }
    }

    /// The type's spelling.
    pub open spec fn spelling(self) -> Seq<char> {
        match self {
            Dtype::F64 => "f64"@,
            Dtype::F32 => "f32"@,
            Dtype::I64 => "i64"@,
            Dtype::I32 => "i32"@,
            Dtype::I16 => "i16"@,
            Dtype::I8 => "i8"@,
            Dtype::U64 => "u64"@,
            Dtype::U32 => "u32"@,
            Dtype::U16 => "u16"@,
            Dtype::U8 => "u8"@,
            Dtype::Bool => "bool"@,
        }
    }

    /// The type's spelling.
    pub fn as_str(self) -> (r: &'static str)
        ensures
            r@ == self.spelling(),
    {
        match self {
            Dtype::F64 => "f64",
            Dtype::F32 => "f32",
            Dtype::I64 => "i64",
            Dtype::I32 => "i32",
            Dtype::I16 => "i16",
            Dtype::I8 => "i8",
            Dtype::U64 => "u64",
            Dtype::U32 => "u32",
            Dtype::U16 => "u16",
            Dtype::U8 => "u8",
            Dtype::Bool => "bool",
        }
    }

    /// The type's code in the C ABI. Six of the codes are fixed by the ABI; for the other types
    /// it is the store's own number.
    pub open spec fn abi_code(self, stored: i32) -> i32 {
        match self {
            Dtype::F64 => 0,
            Dtype::F32 => 1,
            Dtype::I64 => 2,
            Dtype::I32 => 3,
            Dtype::U64 => 4,
            Dtype::Bool => 5,
            _ => stored,
        }
    }

    /// The type's code in the C ABI, where `stored` is the store's own number for the type.
    pub fn code(self, stored: i32) -> (r: i32)
        ensures
            r == self.abi_code(stored),
    {
        match self {
            Dtype::F64 => 0,
            Dtype::F32 => 1,
            Dtype::I64 => 2,
            Dtype::I32 => 3,
            Dtype::U64 => 4,
            Dtype::Bool => 5,
            _ => stored,
        }
    }

    /// The type's place in the order of the types.
    pub open spec fn rank(self) -> int {
        match self {
            Dtype::F64 => 0,
            Dtype::F32 => 1,
            Dtype::I64 => 2,
            Dtype::I32 => 3,
            Dtype::I16 => 4,
            Dtype::I8 => 5,
            Dtype::U64 => 6,
            Dtype::U32 => 7,
            Dtype::U16 => 8,
            Dtype::U8 => 9,
            Dtype::Bool => 10,
        }
    }

    /// The type's place in the order of the types.
    pub fn place(self) -> (r: u8)
        ensures
            r == self.rank(),
    {
        match self {
            Dtype::F64 => 0,
            Dtype::F32 => 1,
            Dtype::I64 => 2,
            Dtype::I32 => 3,
            Dtype::I16 => 4,
            Dtype::I8 => 5,
            Dtype::U64 => 6,
            Dtype::U32 => 7,
            Dtype::U16 => 8,
            Dtype::U8 => 9,
            Dtype::Bool => 10,
        }
    }
}

/// What the elements of a series mean, beyond how they are stored.
#[derive(Clone, Debug)]
pub enum ElementType {
    Scalar(Dtype),
    /// A fixed-arity homogeneous tuple.
    Tuple { arity: usize, dtype: Dtype },
    /// One of the function-data kinds, by its spelling. All of them are stored as `f64`.
    Composite(String),
}

/// An [`ElementType`], with its text as characters.
pub enum ElementTypeView {
    Scalar(Dtype),
    Tuple(nat, Dtype),
    Composite(Seq<char>),
}

impl View for ElementType {
    type V = ElementTypeView;

    open spec fn view(&self) -> ElementTypeView {
        match *self {
            ElementType::Scalar(dtype) => ElementTypeView::Scalar(dtype),
            ElementType::Tuple { arity, dtype } => ElementTypeView::Tuple(arity as nat, dtype),
            ElementType::Composite(kind) => ElementTypeView::Composite(kind@),
        }
    }
}

impl ElementTypeView {
    /// The canonical spelling: `f64`, `tuple(3,f64)`, or the name of the kind.
    pub open spec fn spelling(self) -> Seq<char> {
        match self {
            ElementTypeView::Scalar(dtype) => dtype.spelling(),
            ElementTypeView::Tuple(arity, dtype) => "tuple("@ + decimal_text(arity) + ","@
                + dtype.spelling() + ")"@,
            ElementTypeView::Composite(kind) => kind,
        }
    }

    /// How the elements are stored.
    pub open spec fn physical(self) -> Dtype {
        match self {
            ElementTypeView::Scalar(dtype) => dtype,
            ElementTypeView::Tuple(_, dtype) => dtype,
            ElementTypeView::Composite(_) => Dtype::F64,
        }
    }
}

impl ElementType {
    /// The canonical spelling.
    pub fn spelled(&self) -> (r: String)
        ensures
            r@ == self@.spelling(),
    {
        match self {
            ElementType::Scalar(dtype) => dtype.as_str().to_string(),
            ElementType::Tuple { arity, dtype } => {
                let mut out = "tuple(".to_string();
                out.append(decimal(*arity as u64).as_str());
                out.append(",");
                out.append(dtype.as_str());
                out.append(")");
                out
            },
            ElementType::Composite(kind) => kind.clone(),
        }
    }

    /// How the elements are stored.
    pub fn physical_dtype(&self) -> (r: Dtype)
        ensures
            r == self@.physical(),
    {
        match self {
            ElementType::Scalar(dtype) => *dtype,
            ElementType::Tuple { dtype, .. } => *dtype,
            ElementType::Composite(_) => Dtype::F64,
        }
    }

    /// Whether two element types are the same.
    pub fn same(&self, other: &ElementType) -> (r: bool)
        ensures
            r == (self@ == other@),
    {
        match (self, other) {
            (ElementType::Scalar(a), ElementType::Scalar(b)) => *a == *b,
            (
                ElementType::Tuple { arity: a, dtype: c },
                ElementType::Tuple { arity: b, dtype: d },
            ) => *a == *b && *c == *d,
            (ElementType::Composite(a), ElementType::Composite(b)) => same_text(
                a.as_str(),
                b.as_str(),
            ),
            _ => false,
        }
    }

    /// The same element type again.
    pub fn copied(&self) -> (r: ElementType)
        ensures
            r == *self,
    {
        match self {
            ElementType::Scalar(dtype) => ElementType::Scalar(*dtype),
            ElementType::Tuple { arity, dtype } => ElementType::Tuple {
                arity: *arity,
                dtype: *dtype,
            },
            ElementType::Composite(kind) => ElementType::Composite(kind.clone()),
        }
    }
}

/// Whether an element type is one of the function-data kinds.
pub fn is_composite(element_type: &ElementType) -> (r: bool)
    ensures
        r == (element_type@ is Composite),
{
    match element_type {
        ElementType::Scalar(_) => false,
        ElementType::Tuple { .. } => false,
        ElementType::Composite(_) => true,
    }
}

/// The kinds of series the store holds.
#[derive(Clone, Copy, Debug, PartialEq, Eq, Structural)]
pub enum TimeSeriesType {
    SingleTimeSeries,
    NonSequentialTimeSeries,
    Deterministic,
    DeterministicSingleTimeSeries,
    Probabilistic,
    Scenarios,
    PersistentTimeSeries,
}

impl TimeSeriesType {
    /// The type's spelling.
    pub open spec fn spelling(self) -> Seq<char> {
        match self {
            TimeSeriesType::SingleTimeSeries => "SingleTimeSeries"@,
            TimeSeriesType::NonSequentialTimeSeries => "NonSequentialTimeSeries"@,
            TimeSeriesType::Deterministic => "Deterministic"@,
            TimeSeriesType::DeterministicSingleTimeSeries => "DeterministicSingleTimeSeries"@,
            TimeSeriesType::Probabilistic => "Probabilistic"@,
            TimeSeriesType::Scenarios => "Scenarios"@,
            TimeSeriesType::PersistentTimeSeries => "PersistentTimeSeries"@,
        }
    }

    /// The type's spelling.
    pub fn as_str(self) -> (r: &'static str)
        ensures
            r@ == self.spelling(),
    {
        match self {
            TimeSeriesType::SingleTimeSeries => "SingleTimeSeries",
            TimeSeriesType::NonSequentialTimeSeries => "NonSequentialTimeSeries",
            TimeSeriesType::Deterministic => "Deterministic",
            TimeSeriesType::DeterministicSingleTimeSeries => "DeterministicSingleTimeSeries",
            TimeSeriesType::Probabilistic => "Probabilistic",
            TimeSeriesType::Scenarios => "Scenarios",
            TimeSeriesType::PersistentTimeSeries => "PersistentTimeSeries",
        }
    }

    /// The type a text spells, if it spells one.
    pub open spec fn read(text: Seq<char>) -> Option<TimeSeriesType> {
        if text == "SingleTimeSeries"@ {
            Some(TimeSeriesType::SingleTimeSeries)
        } else if text == "NonSequentialTimeSeries"@ {
            Some(TimeSeriesType::NonSequentialTimeSeries)
        } else if text == "Deterministic"@ {
            Some(TimeSeriesType::Deterministic)
        } else if text == "DeterministicSingleTimeSeries"@ {
            Some(TimeSeriesType::DeterministicSingleTimeSeries)
        } else if text == "Probabilistic"@ {
            Some(TimeSeriesType::Probabilistic)
        } else if text == "Scenarios"@ {
            Some(TimeSeriesType::Scenarios)
        } else if text == "PersistentTimeSeries"@ {
            Some(TimeSeriesType::PersistentTimeSeries)
        } else {
            None
        }
    }

    /// The type a text spells, if it spells one.
    pub fn parse(text: &str) -> (r: Option<TimeSeriesType>)
        ensures
            r == TimeSeriesType::read(text@),
    {
        if same_text(text, "SingleTimeSeries") {
            Some(TimeSeriesType::SingleTimeSeries)
        } else if same_text(text, "NonSequentialTimeSeries") {
            Some(TimeSeriesType::NonSequentialTimeSeries)
        } else if same_text(text, "Deterministic") {
            Some(TimeSeriesType::Deterministic)
        } else if same_text(text, "DeterministicSingleTimeSeries") {
            Some(TimeSeriesType::DeterministicSingleTimeSeries)
        } else if same_text(text, "Probabilistic") {
            Some(TimeSeriesType::Probabilistic)
        } else if same_text(text, "Scenarios") {
            Some(TimeSeriesType::Scenarios)
        } else if same_text(text, "PersistentTimeSeries") {
            Some(TimeSeriesType::PersistentTimeSeries)
        } else {
            None
        }
    }

    /// Whether the type is one of the forecasts.
    pub open spec fn forecasts(self) -> bool {
        match self {
            TimeSeriesType::Deterministic => true,
            TimeSeriesType::DeterministicSingleTimeSeries => true,
            TimeSeriesType::Probabilistic => true,
            TimeSeriesType::Scenarios => true,
            _ => false,
        }
    }

    /// Whether the type is one of the forecasts.
    pub fn is_forecast(self) -> (r: bool)
        ensures
            r == self.forecasts(),
    {
        match self {
            TimeSeriesType::Deterministic => true,
            TimeSeriesType::DeterministicSingleTimeSeries => true,
            TimeSeriesType::Probabilistic => true,
            TimeSeriesType::Scenarios => true,
            _ => false,
        }
    }

    /// How many leading axes a stored array of this type has before the per-step shape:
    /// `[length]`, `[H, count]`, or `[lanes, H, count]`.
    pub open spec fn axes(self) -> nat {
        match self {
            TimeSeriesType::Deterministic => 2,
            TimeSeriesType::DeterministicSingleTimeSeries => 2,
            TimeSeriesType::Probabilistic => 3,
            TimeSeriesType::Scenarios => 3,
            _ => 1,
        }
    }

    /// How many leading axes a stored array of this type has.
    pub fn leading_dims(self) -> (r: usize)
        ensures
            r == self.axes(),
            1 <= r <= 3,
    {
        match self {
            TimeSeriesType::Deterministic => 2,
            TimeSeriesType::DeterministicSingleTimeSeries => 2,
            TimeSeriesType::Probabilistic => 3,
            TimeSeriesType::Scenarios => 3,
            _ => 1,
        }
    }

    /// The type's number.
    pub open spec fn number(self) -> int {
        match self {
            TimeSeriesType::SingleTimeSeries => 0,
            TimeSeriesType::NonSequentialTimeSeries => 1,
            TimeSeriesType::Deterministic => 2,
            TimeSeriesType::DeterministicSingleTimeSeries => 3,
            TimeSeriesType::Probabilistic => 4,
            TimeSeriesType::Scenarios => 5,
            TimeSeriesType::PersistentTimeSeries => 6,
        }
    }

    /// The type's number.
    pub fn code(self) -> (r: i64)
        ensures
            r == self.number(),
    {
        match self {
            TimeSeriesType::SingleTimeSeries => 0,
            TimeSeriesType::NonSequentialTimeSeries => 1,
            TimeSeriesType::Deterministic => 2,
            TimeSeriesType::DeterministicSingleTimeSeries => 3,
            TimeSeriesType::Probabilistic => 4,
            TimeSeriesType::Scenarios => 5,
            TimeSeriesType::PersistentTimeSeries => 6,
        }
    }
}

/// Reading a type's spelling gives the type back.
pub proof fn type_spelling_reads_back(t: TimeSeriesType)
    ensures
        TimeSeriesType::read(t.spelling()) == Some(t),
{
    reveal_strlit("SingleTimeSeries");
    reveal_strlit("NonSequentialTimeSeries");
    reveal_strlit("Deterministic");
    reveal_strlit("DeterministicSingleTimeSeries");
    reveal_strlit("Probabilistic");
    reveal_strlit("Scenarios");
    reveal_strlit("PersistentTimeSeries");
    assert("SingleTimeSeries"@.len() == 16);
    assert("NonSequentialTimeSeries"@.len() == 23);
    assert("DeterministicSingleTimeSeries"@.len() == 29);
    assert("Scenarios"@.len() == 9);
    assert("PersistentTimeSeries"@.len() == 20);
    assert("Deterministic"@.len() == 13 && "Probabilistic"@.len() == 13);
    assert("Deterministic"@[0] != "Probabilistic"@[0]);
}

/// What kind of thing owns a series.
#[derive(Clone, Copy, Debug, PartialEq, Eq, Structural)]
pub enum OwnerCategory {
    Component,
    SupplementalAttribute,
}

impl OwnerCategory {
    /// The category's spelling.
    pub open spec fn spelling(self) -> Seq<char> {
        match self {
            OwnerCategory::Component => "Component"@,
            OwnerCategory::SupplementalAttribute => "SupplementalAttribute"@,
        }
    }

    /// The category's spelling.
    pub fn as_str(self) -> (r: &'static str)
        ensures
            r@ == self.spelling(),
    {
        match self {
            OwnerCategory::Component => "Component",
            OwnerCategory::SupplementalAttribute => "SupplementalAttribute",
        }
    }

    /// The category a text spells, if it spells one.
    pub open spec fn read(text: Seq<char>) -> Option<OwnerCategory> {
        if text == "Component"@ {
            Some(OwnerCategory::Component)
        } else if text == "SupplementalAttribute"@ {
            Some(OwnerCategory::SupplementalAttribute)
        } else {
            None
        }
    }

    /// The category a text spells, if it spells one.
    pub fn parse(text: &str) -> (r: Option<OwnerCategory>)
        ensures
            r == OwnerCategory::read(text@),
    {
        if same_text(text, "Component") {
            Some(OwnerCategory::Component)
        } else if same_text(text, "SupplementalAttribute") {
            Some(OwnerCategory::SupplementalAttribute)
        } else {
            None
        }
    }
}

/// Reading a category's spelling gives the category back.
pub proof fn category_spelling_reads_back(c: OwnerCategory)
    ensures
        OwnerCategory::read(c.spelling()) == Some(c),
{
    reveal_strlit("Component");
    reveal_strlit("SupplementalAttribute");
    assert("Component"@.len() == 9);
}

/// The basis a series' values are in.
#[derive(Clone, Copy, Debug, PartialEq, Eq, Structural)]
pub enum UnitSystem {
    NaturalUnits,
    ComponentBase,
}

impl UnitSystem {
    /// The basis' spelling.
    pub open spec fn spelling(self) -> Seq<char> {
        match self {
            UnitSystem::NaturalUnits => "natural_units"@,
            UnitSystem::ComponentBase => "component_base"@,
        }
    }

    /// The basis' spelling.
    pub fn as_str(self) -> (r: &'static str)
        ensures
            r@ == self.spelling(),
    {
        match self {
            UnitSystem::NaturalUnits => "natural_units",
            UnitSystem::ComponentBase => "component_base",
        }
    }

    /// The basis a text spells, if it spells one.
    pub open spec fn read(text: Seq<char>) -> Option<UnitSystem> {
        if text == "natural_units"@ {
            Some(UnitSystem::NaturalUnits)
        } else if text == "component_base"@ {
            Some(UnitSystem::ComponentBase)
        } else {
            None
        }
    }

    /// The basis a text spells, if it spells one.
    pub fn parse(text: &str) -> (r: Option<UnitSystem>)
        ensures
            r == UnitSystem::read(text@),
    {
        if same_text(text, "natural_units") {
            Some(UnitSystem::NaturalUnits)
        } else if same_text(text, "component_base") {
            Some(UnitSystem::ComponentBase)
        } else {
            None
        }
    }
}

/// Reading a basis' spelling gives the basis back.
pub proof fn unit_system_spelling_reads_back(u: UnitSystem)
    ensures
        UnitSystem::read(u.spelling()) == Some(u),
        u.spelling().len() > 0,
{
    reveal_strlit("natural_units");
    reveal_strlit("component_base");
    assert("natural_units"@.len() == 13);
}

/// How a series' timestamps were spelled.
#[derive(Clone, Debug)]
pub enum TimeReference {
    Utc,
    /// A wall clock naming no instant.
    Zoneless,
    /// Minutes east of UTC.
    FixedOffset(i32),
    /// An IANA zone name, unresolved.
    Zone(String),
}

/// A [`TimeReference`], with its text as characters.
pub enum TimeReferenceView {
    Utc,
    Zoneless,
    FixedOffset(int),
    Zone(Seq<char>),
}

impl View for TimeReference {
    type V = TimeReferenceView;

    open spec fn view(&self) -> TimeReferenceView {
        match *self {
            TimeReference::Utc => TimeReferenceView::Utc,
            TimeReference::Zoneless => TimeReferenceView::Zoneless,
            TimeReference::FixedOffset(minutes) => TimeReferenceView::FixedOffset(minutes as int),
            TimeReference::Zone(name) => TimeReferenceView::Zone(name@),
        }
    }
}

/// The magnitude of an integer.
pub open spec fn magnitude(n: int) -> nat {
    if n < 0 {
        (-n) as nat
    } else {
        n as nat
    }
}

impl TimeReferenceView {
    /// The spelling the store records: `utc`, `zoneless`, `-07:00`, or the zone's name.
    pub open spec fn storage_text(self) -> Seq<char> {
        match self {
            TimeReferenceView::Utc => "utc"@,
            TimeReferenceView::Zoneless => "zoneless"@,
            TimeReferenceView::FixedOffset(minutes) => (if minutes < 0 {
                "-"@
            } else {
                "+"@
            }) + two_digits(magnitude(minutes) / 60) + ":"@ + two_digits(magnitude(minutes) % 60),
            TimeReferenceView::Zone(name) => name,
        }
    }
}

/// The magnitude of an integer.
pub(crate) fn abs_minutes(n: i32) -> (r: u64)
    ensures
        r == magnitude(n as int),
{
    if n < 0 {
        (-(n as i64)) as u64
    } else {
        n as u64
    }
}

impl TimeReference {
    /// The spelling the store records.
    pub fn as_storage_string(&self) -> (r: String)
        ensures
            r@ == self@.storage_text(),
    {
        match self {
            TimeReference::Utc => "utc".to_string(),
            TimeReference::Zoneless => "zoneless".to_string(),
            TimeReference::FixedOffset(minutes) => {
                let abs: u64 = abs_minutes(*minutes);
                let mut out = if *minutes < 0 {
                    "-".to_string()
                } else {
                    "+".to_string()
                };
                out.append(padded(abs / 60).as_str());
                out.append(":");
                out.append(padded(abs % 60).as_str());
                out
            },
            TimeReference::Zone(name) => name.clone(),
        }
    }

    /// The same reference again.
    pub fn copied(&self) -> (r: TimeReference)
        ensures
            r == *self,
    {
        match self {
            TimeReference::Utc => TimeReference::Utc,
            TimeReference::Zoneless => TimeReference::Zoneless,
            TimeReference::FixedOffset(minutes) => TimeReference::FixedOffset(*minutes),
            TimeReference::Zone(name) => TimeReference::Zone(name.clone()),
        }
    }

    /// Whether two references are the same.
    pub fn same(&self, other: &TimeReference) -> (r: bool)
        ensures
            r == (self@ == other@),
    {
        match (self, other) {
            (TimeReference::Utc, TimeReference::Utc) => true,
            (TimeReference::Zoneless, TimeReference::Zoneless) => true,
            (TimeReference::FixedOffset(a), TimeReference::FixedOffset(b)) => *a == *b,
            (TimeReference::Zone(a), TimeReference::Zone(b)) => same_text(a.as_str(), b.as_str()),
            _ => false,
        }
    }
}

/// The view of an optional reference.
pub open spec fn reference_view(reference: Option<TimeReference>) -> Option<TimeReferenceView> {
    match reference {
        None => None,
        Some(r) => Some(r@),
    }
}

// ---- What the vocabulary keeps apart --------------------------------------------------------

/// The name of a number's type says how many bits it takes, eight to the byte; a truth value
/// takes one byte.
pub proof fn names_say_how_wide(t: Dtype, size: usize, name: &'static str)
    requires
        call_ensures(Dtype::size, (t,), size),
        call_ensures(Dtype::as_str, (t,), name),
    ensures
        t != Dtype::Bool ==> 8 * size == digits_value(name@.skip(1)),
        t == Dtype::Bool ==> size == 1,
{
    reveal_with_fuel(digits_value, 4);
    reveal_strlit("f64");
    reveal_strlit("f32");
    reveal_strlit("i64");
    reveal_strlit("i32");
    reveal_strlit("i16");
    reveal_strlit("i8");
    reveal_strlit("u64");
    reveal_strlit("u32");
    reveal_strlit("u16");
    reveal_strlit("u8");
    assert("f64"@.skip(1) =~= seq!['6', '4']);
    assert("f32"@.skip(1) =~= seq!['3', '2']);
    assert("i64"@.skip(1) =~= seq!['6', '4']);
    assert("i32"@.skip(1) =~= seq!['3', '2']);
    assert("i16"@.skip(1) =~= seq!['1', '6']);
    assert("i8"@.skip(1) =~= seq!['8']);
    assert("u64"@.skip(1) =~= seq!['6', '4']);
    assert("u32"@.skip(1) =~= seq!['3', '2']);
    assert("u16"@.skip(1) =~= seq!['1', '6']);
    assert("u8"@.skip(1) =~= seq!['8']);
    assert(seq!['6', '4'].drop_last() =~= seq!['6']);
    assert(seq!['3', '2'].drop_last() =~= seq!['3']);
    assert(seq!['1', '6'].drop_last() =~= seq!['1']);
    assert(seq!['6'].drop_last() =~= seq![]);
    assert(seq!['3'].drop_last() =~= seq![]);
    assert(seq!['1'].drop_last() =~= seq![]);
    assert(seq!['8'].drop_last() =~= seq![]);
    assert(digits_value(seq!['6', '4']) == 64);
    assert(digits_value(seq!['3', '2']) == 32);
    assert(digits_value(seq!['1', '6']) == 16);
    assert(digits_value(seq!['8']) == 8);
}

/// Types of numbers keep their places: the order tells any two apart, floats come first and a
/// truth value last, and wider ones before narrower ones of their sort.
pub proof fn number_types_keep_their_places(a: Dtype, b: Dtype, pa: u8, pb: u8)
    requires
        call_ensures(Dtype::place, (a,), pa),
        call_ensures(Dtype::place, (b,), pb),
    ensures
        pa == pb <==> a == b,
        a == Dtype::F64 ==> pa <= pb,
        a == Dtype::Bool ==> pa >= pb,
        (a is I64 || a is I32 || a is I16 || a is I8) && (b is I64 || b is I32 || b is I16 || b is I8)
            && a.bytes() > b.bytes() ==> pa < pb,
        (a is U64 || a is U32 || a is U16 || a is U8) && (b is U64 || b is U32 || b is U16 || b is U8)
            && a.bytes() > b.bytes() ==> pa < pb,
{
}

/// The codes that the boundary fixes are told apart, and a type without one keeps the number the
/// store has for it.
pub proof fn fixed_codes_tell_apart(a: Dtype, b: Dtype, x: i32, y: i32, ca: i32, cb: i32)
    requires
        call_ensures(Dtype::code, (a, x), ca),
        call_ensures(Dtype::code, (b, y), cb),
    ensures
        (a is I16 || a is I8 || a is U32 || a is U16 || a is U8) ==> ca == x,
        !(a is I16 || a is I8 || a is U32 || a is U16 || a is U8) && !(b is I16 || b is I8
            || b is U32 || b is U16 || b is U8) ==> (ca == cb <==> a == b) && 0 <= ca <= 5,
{
}

/// What is spelled reads back, for the three vocabularies that are read, and only what is spelled
/// is read.
pub proof fn spellings_read_back(
    t: TimeSeriesType,
    c: OwnerCategory,
    u: UnitSystem,
    text: &str,
    of_t: &'static str,
    of_c: &'static str,
    of_u: &'static str,
    t_back: Option<TimeSeriesType>,
    c_back: Option<OwnerCategory>,
    u_back: Option<UnitSystem>,
    t_read: Option<TimeSeriesType>,
    c_read: Option<OwnerCategory>,
    u_read: Option<UnitSystem>,
)
    requires
        call_ensures(TimeSeriesType::as_str, (t,), of_t),
        call_ensures(OwnerCategory::as_str, (c,), of_c),
        call_ensures(UnitSystem::as_str, (u,), of_u),
        call_ensures(TimeSeriesType::parse, (of_t,), t_back),
        call_ensures(OwnerCategory::parse, (of_c,), c_back),
        call_ensures(UnitSystem::parse, (of_u,), u_back),
        call_ensures(TimeSeriesType::parse, (text,), t_read),
        call_ensures(OwnerCategory::parse, (text,), c_read),
        call_ensures(UnitSystem::parse, (text,), u_read),
    ensures
        t_back == Some(t),
        c_back == Some(c),
        u_back == Some(u),
        t_read matches Some(v) ==> text@ == v.spelling(),
        c_read matches Some(v) ==> text@ == v.spelling(),
        u_read matches Some(v) ==> text@ == v.spelling(),
{
    type_spelling_reads_back(t);
    category_spelling_reads_back(c);
    unit_system_spelling_reads_back(u);
}

/// A forecast has more leading axes than a static series, its windows and its steps, and one more
/// where it has lanes.
pub proof fn leading_axes_are_those_of_the_grid(t: TimeSeriesType, n: usize, forecast: bool)
    requires
        call_ensures(TimeSeriesType::leading_dims, (t,), n),
        call_ensures(TimeSeriesType::is_forecast, (t,), forecast),
    ensures
        n == 1 <==> !forecast,
        n == 3 <==> t == TimeSeriesType::Probabilistic || t == TimeSeriesType::Scenarios,
        forecast <==> t != TimeSeriesType::SingleTimeSeries && t
            != TimeSeriesType::NonSequentialTimeSeries && t != TimeSeriesType::PersistentTimeSeries,
        1 <= n <= 3,
{
}

/// Elements are stored as the numbers they are made of, and function data as doubles.
pub proof fn elements_are_stored_as_their_numbers(e: ElementType, r: Dtype)
    requires
        call_ensures(ElementType::physical_dtype, (&e,), r),
    ensures
        e matches ElementType::Scalar(d) ==> r == d,
        e matches ElementType::Tuple { dtype, .. } ==> r == dtype,
        e is Composite ==> r == Dtype::F64,
{
}

/// Two element types are the same exactly where they are spelled of the same parts; two time
/// references likewise.
pub proof fn sameness_is_of_all_parts(
    a: ElementType,
    b: ElementType,
    same: bool,
    s: TimeReference,
    t: TimeReference,
    alike: bool,
)
    requires
        call_ensures(ElementType::same, (&a, &b), same),
        call_ensures(TimeReference::same, (&s, &t), alike),
    ensures
        same <==> match (a, b) {
            (ElementType::Scalar(x), ElementType::Scalar(y)) => x == y,
            (ElementType::Tuple { arity: m, dtype: x }, ElementType::Tuple { arity: n, dtype: y }) =>
                m == n && x == y,
            (ElementType::Composite(x), ElementType::Composite(y)) => x@ == y@,
            _ => false,
        },
        alike <==> match (s, t) {
            (TimeReference::Utc, TimeReference::Utc) => true,
            (TimeReference::Zoneless, TimeReference::Zoneless) => true,
            (TimeReference::FixedOffset(m), TimeReference::FixedOffset(n)) => m == n,
            (TimeReference::Zone(x), TimeReference::Zone(y)) => x@ == y@,
            _ => false,
        },
{
}

/// A fixed offset is spelled by its sign, its whole hours and the minutes beyond them; a zone by
/// its own name, and the others by what they are.
pub proof fn references_are_spelled_as_they_are(
    reference: TimeReference,
    hours: nat,
    minutes: nat,
    r: String,
)
    requires
        call_ensures(TimeReference::as_storage_string, (&reference,), r),
        minutes < 60,
    ensures
        reference is Utc ==> r@ == "utc"@,
        reference is Zoneless ==> r@ == "zoneless"@,
        reference matches TimeReference::Zone(name) ==> r@ == name@,
        reference matches TimeReference::FixedOffset(n) ==> n == 60 * hours + minutes ==> r@ == "+"@
            + two_digits(hours) + ":"@ + two_digits(minutes),
        reference matches TimeReference::FixedOffset(n) ==> n < 0 ==> -n == 60 * hours + minutes
            ==> r@ == "-"@ + two_digits(hours) + ":"@ + two_digits(minutes),
{
}

} // verus!
