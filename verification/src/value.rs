use crate::ast::{block_view, BlockDef, BlockV};
use crate::bigint::{big_add, big_clone, big_cmp, big_eq, big_from_i64, big_mul, big_value};
use crate::errors::{coercion_err, labeled_err, ErrV, ShellError};
use crate::strings::int_dec_str;
use crate::tag::Tag;
use vstd::prelude::*;

verus! {

/// The outcome of an order comparison.
#[derive(Clone, Copy, PartialEq, Eq, Structural, Debug)]
pub enum CmpResult {
    Less,
    Equal,
    Greater,
}

/// The runtime value variants that flow through pipelines, without the
/// source-position tag.
#[derive(Debug)]
pub enum UntaggedValue {
    Nothing,
    Boolean(bool),
    /// A fixed-width integer.
    SmallInt(i64),
    /// An arbitrary-precision integer; fixed-width arithmetic promotes into
    /// this variant instead of wrapping or panicking.
    BigInt(num_bigint::BigInt),
    /// A decimal: an arbitrary-precision unscaled value and a power-of-ten
    /// scale, reading as `unscaled * 10^(-scale)`.
    Decimal(num_bigint::BigInt, i64),
    Str(String),
    FilePath(String),
    /// A duration in nanoseconds.
    Duration(i64),
    /// A file size in bytes.
    Filesize(u64),
    /// A date as milliseconds since the epoch.
    Date(i64),
    Range(Box<RangeValue>),
    Binary(Vec<u8>),
    /// An ordered record of named fields; field names are unique and
    /// insertion order is significant.
    Row(Dictionary),
    /// An ordered sequence of values.
    Table(Vec<Value>),
    /// An unevaluated, capturable sub-pipeline.
    Block(Box<CapturedBlock>),
    /// A structured error travelling in place of data.
    Error(ShellError),
}

/// A runtime value: the data plus the source-position tag it carries for
/// diagnostics.
#[derive(Debug)]
pub struct Value {
    pub value: UntaggedValue,
    pub tag: Tag,
}

/// The ordered field map of a `Row`.
#[derive(Debug)]
pub struct Dictionary {
    pub entries: Vec<(String, Value)>,
}

/// A range value: its two bounds and their inclusivity flags.
#[derive(Debug)]
pub struct RangeValue {
    pub from: Value,
    pub from_inclusive: bool,
    pub to: Value,
    pub to_inclusive: bool,
}

/// A block value paired with the snapshot of the defining scope's bindings,
/// taken once when the block value was constructed.
#[derive(Debug)]
pub struct CapturedBlock {
    pub block: BlockDef,
    pub captured: Vec<(String, Value)>,
}

/// Mathematical content of a value. Tags are not part of it: two values are
/// the same value even when they were written at different source positions.
pub enum ValV {
    Nothing,
    Bool(bool),
    Small(int),
    Big(int),
    Decimal(int, int),
    Str(Seq<char>),
    FilePath(Seq<char>),
    Duration(int),
    Filesize(int),
    Date(int),
    Range(Box<RangeV>),
    Binary(Seq<u8>),
    Row(Seq<(Seq<char>, ValV)>),
    Table(Seq<ValV>),
    Block(BlockValV),
    Error(ErrV),
}

/// Mathematical content of a `RangeValue`.
pub struct RangeV {
    pub from: ValV,
    pub from_inclusive: bool,
    pub to: ValV,
    pub to_inclusive: bool,
}

/// Mathematical content of a `CapturedBlock`.
pub struct BlockValV {
    pub block: BlockV,
    pub captured: Seq<(Seq<char>, ValV)>,
}

pub open spec fn val_view(v: Value) -> ValV
    decreases v,
{
    uv_view(v.value)
}

/// The view of a sequence of values.
pub open spec fn tbl_view(s: Seq<Value>) -> Seq<ValV>
    decreases s,
{
    Seq::new(
        s.len(),
        |i: int|
            if 0 <= i < s.len() {
                val_view(s[i])
            } else {
                ValV::Nothing
            },
    )
}

/// The view of a sequence of named bindings.
pub open spec fn entries_view(s: Seq<(String, Value)>) -> Seq<(Seq<char>, ValV)>
    decreases s,
{
    Seq::new(
        s.len(),
        |i: int|
            if 0 <= i < s.len() {
                (s[i].0@, val_view(s[i].1))
            } else {
                (Seq::empty(), ValV::Nothing)
            },
    )
}

pub open spec fn uv_view(u: UntaggedValue) -> ValV
    decreases u,
{
    match u {
        UntaggedValue::Nothing => ValV::Nothing,
        UntaggedValue::Boolean(b) => ValV::Bool(b),
        UntaggedValue::SmallInt(i) => ValV::Small(i as int),
        UntaggedValue::BigInt(b) => ValV::Big(big_value(b)),
        UntaggedValue::Decimal(d, s) => ValV::Decimal(big_value(d), s as int),
        UntaggedValue::Str(s) => ValV::Str(s@),
        UntaggedValue::FilePath(s) => ValV::FilePath(s@),
        UntaggedValue::Duration(n) => ValV::Duration(n as int),
        UntaggedValue::Filesize(n) => ValV::Filesize(n as int),
        UntaggedValue::Date(n) => ValV::Date(n as int),
        UntaggedValue::Range(r) => ValV::Range(
            Box::new(
                RangeV {
                    from: val_view((*r).from),
                    from_inclusive: (*r).from_inclusive,
                    to: val_view((*r).to),
                    to_inclusive: (*r).to_inclusive,
                },
            ),
        ),
        UntaggedValue::Binary(b) => ValV::Binary(b@),
        UntaggedValue::Row(d) => ValV::Row(entries_view(d.entries@)),
        UntaggedValue::Table(vs) => ValV::Table(tbl_view(vs@)),
        UntaggedValue::Block(cb) => ValV::Block(capblock_view(*cb)),
        UntaggedValue::Error(e) => ValV::Error(e@),
    }
}

pub open spec fn capblock_view(cb: CapturedBlock) -> BlockValV
    decreases cb,
{
    BlockValV { block: block_view(cb.block), captured: entries_view(cb.captured@) }
}

impl View for UntaggedValue {
    type V = ValV;

    open spec fn view(&self) -> ValV {
        uv_view(*self)
    }
}

impl View for Value {
    type V = ValV;

    open spec fn view(&self) -> ValV {
        uv_view(self.value)
    }
}

impl View for CapturedBlock {
    type V = BlockValV;

    open spec fn view(&self) -> BlockValV {
        capblock_view(*self)
    }
}

/// The `Row` invariant: field names are unique within one row.
pub open spec fn row_keys_unique(entries: Seq<(Seq<char>, ValV)>) -> bool {
    forall|i: int, j: int|
        0 <= i < j < entries.len() ==> (#[trigger] entries[i]).0 != (#[trigger] entries[j]).0
}

/// The value of an integer as a runtime value: it stays fixed-width when it
/// fits, and is an arbitrary-precision integer otherwise.
pub open spec fn int_val(n: int) -> ValV {
    if i64::MIN <= n <= i64::MAX {
        ValV::Small(n)
    } else {
        ValV::Big(n)
    }
}

/// The numeric content of a value, where it has one.
pub open spec fn num_of(v: ValV) -> Option<int> {
    match v {
        ValV::Small(n) => Some(n),
        ValV::Big(n) => Some(n),
        _ => None,
    }
}

/// The arithmetic coercion ladder for addition.
///
/// Two fixed-width integers stay fixed-width unless their exact sum
/// overflows, in which case the sum is promoted to an arbitrary-precision
/// integer; a mixed pairing coerces the fixed-width side up; two
/// arbitrary-precision integers stay arbitrary-precision. An error operand
/// propagates itself. Any other pairing is a type mismatch (`None`).
pub open spec fn spec_add(a: ValV, b: ValV) -> Option<ValV> {
    match (a, b) {
        (ValV::Error(e), _) => Some(ValV::Error(e)),
        (_, ValV::Error(e)) => Some(ValV::Error(e)),
        (ValV::Small(x), ValV::Small(y)) => Some(int_val(x + y)),
        (ValV::Small(x), ValV::Big(y)) => Some(ValV::Big(x + y)),
        (ValV::Big(x), ValV::Small(y)) => Some(ValV::Big(x + y)),
        (ValV::Big(x), ValV::Big(y)) => Some(ValV::Big(x + y)),
        _ => None,
    }
}

/// The arithmetic coercion ladder for multiplication; the same promotion
/// rules as `spec_add`.
pub open spec fn spec_mul(a: ValV, b: ValV) -> Option<ValV> {
    match (a, b) {
        (ValV::Error(e), _) => Some(ValV::Error(e)),
        (_, ValV::Error(e)) => Some(ValV::Error(e)),
        (ValV::Small(x), ValV::Small(y)) => Some(int_val(x * y)),
        (ValV::Small(x), ValV::Big(y)) => Some(ValV::Big(x * y)),
        (ValV::Big(x), ValV::Small(y)) => Some(ValV::Big(x * y)),
        (ValV::Big(x), ValV::Big(y)) => Some(ValV::Big(x * y)),
        _ => None,
    }
}

/// The coercion ladder for order comparison: both sides must be integers
/// (fixed-width or arbitrary-precision, mixed freely); anything else is a
/// mismatch.
pub open spec fn spec_compare(a: ValV, b: ValV) -> Option<CmpResult> {
    match (num_of(a), num_of(b)) {
        (Some(x), Some(y)) => Some(
            if x < y {
                CmpResult::Less
            } else if x == y {
                CmpResult::Equal
            } else {
                CmpResult::Greater
            },
        ),
        _ => None,
    }
}

/// The strict-order predicate used by ordering stages: true exactly when
/// both sides are integers and the left is smaller. A mismatched pairing is
/// the `false` sentinel, never an error.
pub open spec fn spec_lt(a: ValV, b: ValV) -> bool {
    spec_compare(a, b) == Some(CmpResult::Less)
}

pub open spec fn spec_kind_name(v: ValV) -> Seq<char> {
    match v {
        ValV::Nothing => "nothing"@,
        ValV::Bool(_) => "boolean"@,
        ValV::Small(_) => "integer"@,
        ValV::Big(_) => "big integer"@,
        ValV::Decimal(_, _) => "decimal"@,
        ValV::Str(_) => "string"@,
        ValV::FilePath(_) => "file path"@,
        ValV::Duration(_) => "duration"@,
        ValV::Filesize(_) => "filesize"@,
        ValV::Date(_) => "date"@,
        ValV::Range(_) => "range"@,
        ValV::Binary(_) => "binary"@,
        ValV::Row(_) => "row"@,
        ValV::Table(_) => "table"@,
        ValV::Block(_) => "block"@,
        ValV::Error(_) => "error"@,
    }
}

impl UntaggedValue {
    pub fn kind_name(&self) -> (r: &'static str)
        ensures
            r@ == spec_kind_name(self@),
    {
        match self {
            UntaggedValue::Nothing => "nothing",
            UntaggedValue::Boolean(_) => "boolean",
            UntaggedValue::SmallInt(_) => "integer",
            UntaggedValue::BigInt(_) => "big integer",
            UntaggedValue::Decimal(_, _) => "decimal",
            UntaggedValue::Str(_) => "string",
            UntaggedValue::FilePath(_) => "file path",
            UntaggedValue::Duration(_) => "duration",
            UntaggedValue::Filesize(_) => "filesize",
            UntaggedValue::Date(_) => "date",
            UntaggedValue::Range(_) => "range",
            UntaggedValue::Binary(_) => "binary",
            UntaggedValue::Row(_) => "row",
            UntaggedValue::Table(_) => "table",
            UntaggedValue::Block(_) => "block",
            UntaggedValue::Error(_) => "error",
        }
    }

    pub fn small(i: i64) -> (r: UntaggedValue)
        ensures
            r@ == ValV::Small(i as int),
    {
        UntaggedValue::SmallInt(i)
    }

    pub fn boolean(b: bool) -> (r: UntaggedValue)
        ensures
            r@ == ValV::Bool(b),
    {
        UntaggedValue::Boolean(b)
    }

    pub fn string(s: &str) -> (r: UntaggedValue)
        ensures
            r@ == ValV::Str(s@),
    {
        UntaggedValue::Str(s.to_owned())
    }

    pub fn nothing() -> (r: UntaggedValue)
        ensures
            r@ == ValV::Nothing,
    {
        UntaggedValue::Nothing
    }

    pub fn into_value(self, tag: Tag) -> (r: Value)
        ensures
            r@ == self@,
            r.tag@ == tag@,
    {
        Value { value: self, tag }
    }

    pub fn into_untagged_value(self) -> (r: Value)
        ensures
            r@ == self@,
    {
        Value { value: self, tag: Tag::unknown() }
    }
}

fn bytes_eq(a: &Vec<u8>, b: &Vec<u8>) -> (r: bool)
    ensures
        r == (a@ == b@),
{
    if a.len() != b.len() {
        return false;
    }
    let mut i: usize = 0;
    while i < a.len()
        invariant
            0 <= i <= a@.len(),
            a@.len() == b@.len(),
            forall|j: int| 0 <= j < i ==> a@[j] == b@[j],
        decreases a@.len() - i,
    {
        if a[i] != b[i] {
            return false;
        }
        i = i + 1;
    }
    proof {
        assert(a@ =~= b@);
    }
    true
}

fn same_table(a: &Vec<Value>, b: &Vec<Value>) -> (r: bool)
    ensures
        r == (tbl_view(a@) == tbl_view(b@)),
    decreases a@,
{
    if a.len() != b.len() {
        proof {
            assert(tbl_view(a@).len() == a@.len());
            assert(tbl_view(b@).len() == b@.len());
        }
        return false;
    }
    let mut i: usize = 0;
    while i < a.len()
        invariant
            0 <= i <= a@.len(),
            a@.len() == b@.len(),
            forall|j: int| 0 <= j < i ==> val_view(a@[j]) == val_view(b@[j]),
        decreases a@.len() - i,
    {
        if !a[i].same_value(&b[i]) {
            proof {
                assert(tbl_view(a@)[i as int] != tbl_view(b@)[i as int]);
            }
            return false;
        }
        i = i + 1;
    }
    proof {
        assert(tbl_view(a@) =~= tbl_view(b@));
    }
    true
}

fn same_entries(a: &Vec<(String, Value)>, b: &Vec<(String, Value)>) -> (r: bool)
    ensures
        r == (entries_view(a@) == entries_view(b@)),
    decreases a@,
{
    if a.len() != b.len() {
        proof {
            assert(entries_view(a@).len() == a@.len());
            assert(entries_view(b@).len() == b@.len());
        }
        return false;
    }
    let mut i: usize = 0;
    while i < a.len()
        invariant
            0 <= i <= a@.len(),
            a@.len() == b@.len(),
            forall|j: int|
                0 <= j < i ==> a@[j].0@ == b@[j].0@ && val_view(a@[j].1) == val_view(b@[j].1),
        decreases a@.len() - i,
    {
        if !(a[i].0 == b[i].0) || !a[i].1.same_value(&b[i].1) {
            proof {
                assert(entries_view(a@)[i as int] != entries_view(b@)[i as int]);
            }
            return false;
        }
        i = i + 1;
    }
    proof {
        assert(entries_view(a@) =~= entries_view(b@));
    }
    true
}

impl Value {
    /// Structural, variant-aware equality: values are equal only when they
    /// have the same variant and equal content. A fixed-width integer and an
    /// arbitrary-precision integer are never equal, even when they hold the
    /// same number; tags play no part.
    pub fn same_value(&self, other: &Value) -> (r: bool)
        ensures
            r == (self@ == other@),
        decreases *self,
    {
        match (&self.value, &other.value) {
            (UntaggedValue::Nothing, UntaggedValue::Nothing) => true,
            (UntaggedValue::Boolean(a), UntaggedValue::Boolean(b)) => *a == *b,
            (UntaggedValue::SmallInt(a), UntaggedValue::SmallInt(b)) => *a == *b,
            (UntaggedValue::BigInt(a), UntaggedValue::BigInt(b)) => big_eq(a, b),
            (UntaggedValue::Decimal(a, sa), UntaggedValue::Decimal(b, sb)) => big_eq(a, b) && *sa
                == *sb,
            (UntaggedValue::Str(a), UntaggedValue::Str(b)) => *a == *b,
            (UntaggedValue::FilePath(a), UntaggedValue::FilePath(b)) => *a == *b,
            (UntaggedValue::Duration(a), UntaggedValue::Duration(b)) => *a == *b,
            (UntaggedValue::Filesize(a), UntaggedValue::Filesize(b)) => *a == *b,
            (UntaggedValue::Date(a), UntaggedValue::Date(b)) => *a == *b,
            (UntaggedValue::Range(a), UntaggedValue::Range(b)) => a.from.same_value(&b.from)
                && a.to.same_value(&b.to) && a.from_inclusive == b.from_inclusive
                && a.to_inclusive == b.to_inclusive,
            (UntaggedValue::Binary(a), UntaggedValue::Binary(b)) => bytes_eq(a, b),
            (UntaggedValue::Row(a), UntaggedValue::Row(b)) => same_entries(&a.entries, &b.entries),
            (UntaggedValue::Table(a), UntaggedValue::Table(b)) => same_table(a, b),
            (UntaggedValue::Block(a), UntaggedValue::Block(b)) => a.block.same_block(&b.block)
                && same_entries(&a.captured, &b.captured),
            (UntaggedValue::Error(a), UntaggedValue::Error(b)) => a.same_error(b),
            _ => false,
        }
    }
}

fn dup_table(vs: &Vec<Value>) -> (r: Vec<Value>)
    ensures
        tbl_view(r@) == tbl_view(vs@),
    decreases vs@,
{
    let mut out: Vec<Value> = Vec::new();
    let mut i: usize = 0;
    while i < vs.len()
        invariant
            0 <= i <= vs@.len(),
            out@.len() == i,
            forall|j: int| 0 <= j < i ==> val_view(out@[j]) == val_view(vs@[j]),
        decreases vs@.len() - i,
    {
        out.push(vs[i].duplicate());
        i = i + 1;
    }
    proof {
        assert(tbl_view(out@) =~= tbl_view(vs@));
    }
    out
}

pub fn dup_entries(es: &Vec<(String, Value)>) -> (r: Vec<(String, Value)>)
    ensures
        entries_view(r@) == entries_view(es@),
    decreases es@,
{
    let mut out: Vec<(String, Value)> = Vec::new();
    let mut i: usize = 0;
    while i < es.len()
        invariant
            0 <= i <= es@.len(),
            out@.len() == i,
            forall|j: int|
                0 <= j < i ==> out@[j].0@ == es@[j].0@ && val_view(out@[j].1) == val_view(
                    es@[j].1,
                ),
        decreases es@.len() - i,
    {
        let name = es[i].0.clone();
        let val = es[i].1.duplicate();
        out.push((name, val));
        i = i + 1;
    }
    proof {
        assert(entries_view(out@) =~= entries_view(es@));
    }
    out
}

impl CapturedBlock {
    pub fn duplicate(&self) -> (r: CapturedBlock)
        ensures
            r@ == self@,
        decreases *self,
    {
        CapturedBlock { block: self.block.duplicate(), captured: dup_entries(&self.captured) }
    }
}

impl Value {
    /// A deep copy: the same content and the same top-level tag.
    pub fn duplicate(&self) -> (r: Value)
        ensures
            r@ == self@,
            r.tag@ == self.tag@,
        decreases *self,
    {
        let tag = self.tag.duplicate();
        let value = match &self.value {
            UntaggedValue::Nothing => UntaggedValue::Nothing,
            UntaggedValue::Boolean(b) => UntaggedValue::Boolean(*b),
            UntaggedValue::SmallInt(i) => UntaggedValue::SmallInt(*i),
            UntaggedValue::BigInt(b) => UntaggedValue::BigInt(big_clone(b)),
            UntaggedValue::Decimal(d, s) => UntaggedValue::Decimal(big_clone(d), *s),
            UntaggedValue::Str(s) => UntaggedValue::Str(s.clone()),
            UntaggedValue::FilePath(s) => UntaggedValue::FilePath(s.clone()),
            UntaggedValue::Duration(n) => UntaggedValue::Duration(*n),
            UntaggedValue::Filesize(n) => UntaggedValue::Filesize(*n),
            UntaggedValue::Date(n) => UntaggedValue::Date(*n),
            UntaggedValue::Range(r) => UntaggedValue::Range(
                Box::new(
                    RangeValue {
                        from: r.from.duplicate(),
                        from_inclusive: r.from_inclusive,
                        to: r.to.duplicate(),
                        to_inclusive: r.to_inclusive,
                    },
                ),
            ),
            UntaggedValue::Binary(b) => UntaggedValue::Binary(b.clone()),
            UntaggedValue::Row(d) => UntaggedValue::Row(
                Dictionary { entries: dup_entries(&d.entries) },
            ),
            UntaggedValue::Table(vs) => UntaggedValue::Table(dup_table(vs)),
            UntaggedValue::Block(cb) => UntaggedValue::Block(Box::new(cb.duplicate())),
            UntaggedValue::Error(e) => UntaggedValue::Error(e.duplicate()),
        };
        Value { value, tag }
    }

    /// Addition under the coercion ladder. A type mismatch yields an
    /// `Error`-variant value carrying both operand type names and spans,
    /// never a silently wrong number.
    pub fn add(&self, other: &Value) -> (r: Value)
        ensures
            r.tag@ == self.tag@,
            match spec_add(self@, other@) {
                Some(v) => r@ == v,
                None => r@ == ValV::Error(
                    coercion_err(
                        spec_kind_name(self@),
                        self.tag.span,
                        spec_kind_name(other@),
                        other.tag.span,
                    ),
                ),
            },
    {
        let tag = self.tag.duplicate();
        let value = match (&self.value, &other.value) {
            (UntaggedValue::Error(e), _) => UntaggedValue::Error(e.duplicate()),
            (_, UntaggedValue::Error(e)) => UntaggedValue::Error(e.duplicate()),
            (UntaggedValue::SmallInt(a), UntaggedValue::SmallInt(b)) => {
                let s: i128 = *a as i128 + *b as i128;
                if i64::MIN as i128 <= s && s <= i64::MAX as i128 {
                    UntaggedValue::SmallInt(s as i64)
                } else {
                    let ba = big_from_i64(*a);
                    let bb = big_from_i64(*b);
                    UntaggedValue::BigInt(big_add(&ba, &bb))
                }
            },
            (UntaggedValue::SmallInt(a), UntaggedValue::BigInt(b)) => {
                let ba = big_from_i64(*a);
                UntaggedValue::BigInt(big_add(&ba, b))
            },
            (UntaggedValue::BigInt(a), UntaggedValue::SmallInt(b)) => {
                let bb = big_from_i64(*b);
                UntaggedValue::BigInt(big_add(a, &bb))
            },
            (UntaggedValue::BigInt(a), UntaggedValue::BigInt(b)) => UntaggedValue::BigInt(
                big_add(a, b),
            ),
            _ => UntaggedValue::Error(
                ShellError::coerce_error(
                    self.value.kind_name(),
                    self.tag.span,
                    other.value.kind_name(),
                    other.tag.span,
                ),
            ),
        };
        Value { value, tag }
    }

    /// Multiplication under the same coercion ladder as `add`.
    pub fn mul(&self, other: &Value) -> (r: Value)
        ensures
            r.tag@ == self.tag@,
            match spec_mul(self@, other@) {
                Some(v) => r@ == v,
                None => r@ == ValV::Error(
                    coercion_err(
                        spec_kind_name(self@),
                        self.tag.span,
                        spec_kind_name(other@),
                        other.tag.span,
                    ),
                ),
            },
    {
        let tag = self.tag.duplicate();
        let value = match (&self.value, &other.value) {
            (UntaggedValue::Error(e), _) => UntaggedValue::Error(e.duplicate()),
            (_, UntaggedValue::Error(e)) => UntaggedValue::Error(e.duplicate()),
            (UntaggedValue::SmallInt(a), UntaggedValue::SmallInt(b)) => {
                proof {
                    let x = *a as int;
                    let y = *b as int;
                    assert(x * y <= 0x8000000000000000 * 0x8000000000000000 && x * y >= -(
                    0x8000000000000000 * 0x8000000000000000)) by (nonlinear_arith)
                        requires
                            -0x8000000000000000 <= x <= 0x7fffffffffffffff,
                            -0x8000000000000000 <= y <= 0x7fffffffffffffff,
                    ;
                }
                let s: i128 = *a as i128 * *b as i128;
                if i64::MIN as i128 <= s && s <= i64::MAX as i128 {
                    UntaggedValue::SmallInt(s as i64)
                } else {
                    let ba = big_from_i64(*a);
                    let bb = big_from_i64(*b);
                    UntaggedValue::BigInt(big_mul(&ba, &bb))
                }
            },
            (UntaggedValue::SmallInt(a), UntaggedValue::BigInt(b)) => {
                let ba = big_from_i64(*a);
                UntaggedValue::BigInt(big_mul(&ba, b))
            },
            (UntaggedValue::BigInt(a), UntaggedValue::SmallInt(b)) => {
                let bb = big_from_i64(*b);
                UntaggedValue::BigInt(big_mul(a, &bb))
            },
            (UntaggedValue::BigInt(a), UntaggedValue::BigInt(b)) => UntaggedValue::BigInt(
                big_mul(a, b),
            ),
            _ => UntaggedValue::Error(
                ShellError::coerce_error(
                    self.value.kind_name(),
                    self.tag.span,
                    other.value.kind_name(),
                    other.tag.span,
                ),
            ),
        };
        Value { value, tag }
    }

    /// Order comparison under the coercion ladder: `None` on a type
    /// mismatch.
    pub fn compare_order(&self, other: &Value) -> (r: Option<CmpResult>)
        ensures
            r == spec_compare(self@, other@),
    {
        match (&self.value, &other.value) {
            (UntaggedValue::SmallInt(a), UntaggedValue::SmallInt(b)) => Some(
                if *a < *b {
                    CmpResult::Less
                } else if *a == *b {
                    CmpResult::Equal
                } else {
                    CmpResult::Greater
                },
            ),
            (UntaggedValue::SmallInt(a), UntaggedValue::BigInt(b)) => {
                let ba = big_from_i64(*a);
                Some(big_cmp(&ba, b))
            },
            (UntaggedValue::BigInt(a), UntaggedValue::SmallInt(b)) => {
                let bb = big_from_i64(*b);
                Some(big_cmp(a, &bb))
            },
            (UntaggedValue::BigInt(a), UntaggedValue::BigInt(b)) => Some(big_cmp(a, b)),
            _ => None,
        }
    }

    /// The strict-order predicate used by ordering stages; a mismatch is the
    /// `false` sentinel.
    pub fn lt(&self, other: &Value) -> (r: bool)
        ensures
            r == spec_lt(self@, other@),
    {
        match self.compare_order(other) {
            Some(CmpResult::Less) => true,
            _ => false,
        }
    }

    /// Reads the value as a condition result.
    pub fn as_bool(&self) -> (r: Result<bool, ShellError>)
        ensures
            match r {
                Ok(b) => self@ == ValV::Bool(b),
                Err(e) => !(self@ is Bool) && e@ == labeled_err(
                    "Expected a boolean value"@,
                    "expected a boolean"@,
                    self.tag.span,
                ),
            },
    {
        match &self.value {
            UntaggedValue::Boolean(b) => Ok(*b),
            _ => Err(
                ShellError::labeled_error(
                    "Expected a boolean value",
                    "expected a boolean",
                    self.tag.span,
                ),
            ),
        }
    }

    /// Reads the value as text, rendering the variants that have a
    /// canonical text form.
    pub fn as_string(&self) -> (r: Result<String, ShellError>)
        ensures
            match r {
                Ok(s) => spec_as_string(self@) == Some(s@),
                Err(e) => spec_as_string(self@) is None && e@ == labeled_err(
                    "Expected a string from pipeline"@,
                    "requires string input"@,
                    self.tag.span,
                ),
            },
    {
        match &self.value {
            UntaggedValue::Str(s) => Ok(s.clone()),
            UntaggedValue::FilePath(s) => Ok(s.clone()),
            UntaggedValue::Boolean(b) => Ok(
                if *b {
                    "true".to_owned()
                } else {
                    "false".to_owned()
                },
            ),
            UntaggedValue::SmallInt(i) => Ok(crate::strings::i64_to_dec_string(*i)),
            UntaggedValue::BigInt(b) => Ok(crate::bigint::big_to_dec_string(b)),
            _ => Err(
                ShellError::labeled_error(
                    "Expected a string from pipeline",
                    "requires string input",
                    self.tag.span,
                ),
            ),
        }
    }
}

/// Overflow promotion: adding two fixed-width integers yields their exact
/// mathematical sum in every case — still fixed-width when the sum fits the
/// width, and promoted to an arbitrary-precision integer when it does not;
/// it never wraps and never panics.
pub proof fn lemma_overflow_promotion(a: i64, b: i64)
    ensures
        i64::MIN <= a + b <= i64::MAX ==> spec_add(ValV::Small(a as int), ValV::Small(b as int))
            == Some(ValV::Small(a + b)),
        !(i64::MIN <= a + b <= i64::MAX) ==> spec_add(ValV::Small(a as int), ValV::Small(b as int))
            == Some(ValV::Big(a + b)),
{
}

/// Coercion symmetry: adding a fixed-width integer to an
/// arbitrary-precision one gives the same result in either order, and the
/// same result as adding the two as arbitrary-precision integers — the
/// exact mathematical sum.
pub proof fn lemma_coercion_symmetry(a: i64, b: int)
    ensures
        spec_add(ValV::Small(a as int), ValV::Big(b)) == spec_add(
            ValV::Big(b),
            ValV::Small(a as int),
        ),
        spec_add(ValV::Small(a as int), ValV::Big(b)) == spec_add(
            ValV::Big(a as int),
            ValV::Big(b),
        ),
        spec_add(ValV::Small(a as int), ValV::Big(b)) == Some(ValV::Big(a + b)),
{
}

/// The canonical text form of a value, where it has one.
pub open spec fn spec_as_string(v: ValV) -> Option<Seq<char>> {
    match v {
        ValV::Str(s) => Some(s),
        ValV::FilePath(s) => Some(s),
        ValV::Bool(b) => Some(
            if b {
                "true"@
            } else {
                "false"@
            },
        ),
        ValV::Small(n) => Some(int_dec_str(n)),
        ValV::Big(n) => Some(int_dec_str(n)),
        _ => None,
    }
}

} // verus!
