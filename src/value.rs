//! Scalar values: integers, strings and booleans, as configured and as resolved.
use vstd::prelude::*;

verus! {

/// What a scalar value holds, as a mathematical value.
pub enum ScalarView {
    Numeric(int),
    String(Seq<char>),
    Boolean(bool),
}

/// The kind that a feature or property declares for its values.
#[derive(Debug, Clone, Copy, PartialEq, Eq, Structural)]
pub enum ValueKind {
    Numeric,
    Boolean,
    String,
}

impl ValueKind {
    /// The label used for this kind in configuration documents.
    pub fn label(&self) -> (r: &'static str) {
        match self {
            ValueKind::Numeric => "NUMERIC",
            ValueKind::Boolean => "BOOLEAN",
            ValueKind::String => "STRING",
        }
    }
}

/// Whether a scalar is of the given kind.
pub open spec fn is_of_kind(v: ScalarView, kind: ValueKind) -> bool {
    match v {
        ScalarView::Numeric(_) => kind == ValueKind::Numeric,
        ScalarView::String(_) => kind == ValueKind::String,
        ScalarView::Boolean(_) => kind == ValueKind::Boolean,
    }
}

/// An integer number.
#[derive(Debug, Clone, Copy, PartialEq, Eq, Structural)]
pub struct NumericValue(pub i128);

impl View for NumericValue {
    type V = int;

    open spec fn view(&self) -> int {
        self.0 as int
    }
}

impl NumericValue {
    /// The number as an `i64`, where it fits.
    pub fn as_i64(&self) -> (r: Option<i64>)
        ensures
            r == (if i64::MIN <= self@ <= i64::MAX {
                Some(self@ as i64)
            } else {
                None::<i64>
            }),
    {
        if i64::MIN as i128 <= self.0 && self.0 <= i64::MAX as i128 {
            Some(self.0 as i64)
        } else {
            None
        }
    }

    /// The number as a `u64`, where it fits.
    pub fn as_u64(&self) -> (r: Option<u64>)
        ensures
            r == (if 0 <= self@ <= u64::MAX {
                Some(self@ as u64)
            } else {
                None::<u64>
            }),
    {
        if 0 <= self.0 && self.0 <= u64::MAX as i128 {
            Some(self.0 as u64)
        } else {
            None
        }
    }
}

/// A resolved value of a feature or property, typed by its declared kind.
#[derive(Debug, PartialEq, Eq)]
pub enum Value {
    Numeric(NumericValue),
    String(String),
    Boolean(bool),
}

impl View for Value {
    type V = ScalarView;

    open spec fn view(&self) -> ScalarView {
        match self {
            Value::Numeric(n) => ScalarView::Numeric(n@),
            Value::String(s) => ScalarView::String(s@),
            Value::Boolean(b) => ScalarView::Boolean(*b),
        }
    }
}

impl Clone for Value {
    fn clone(&self) -> (r: Self)
        ensures
            r == *self,
    {
        match self {
            Value::Numeric(n) => Value::Numeric(*n),
            Value::String(s) => Value::String(s.clone()),
            Value::Boolean(b) => Value::Boolean(*b),
        }
    }
}

impl From<i64> for Value {
    fn from(v: i64) -> (r: Value) {
        Value::Numeric(NumericValue(v as i128))
    }
}

impl vstd::std_specs::convert::FromSpecImpl<i64> for Value {
    open spec fn obeys_from_spec() -> bool {
        true
    }

    open spec fn from_spec(v: i64) -> Value {
        Value::Numeric(NumericValue(v as i128))
    }
}

impl From<u64> for Value {
    fn from(v: u64) -> (r: Value) {
        Value::Numeric(NumericValue(v as i128))
    }
}

impl vstd::std_specs::convert::FromSpecImpl<u64> for Value {
    open spec fn obeys_from_spec() -> bool {
        true
    }

    open spec fn from_spec(v: u64) -> Value {
        Value::Numeric(NumericValue(v as i128))
    }
}

impl From<String> for Value {
    fn from(v: String) -> (r: Value) {
        Value::String(v)
    }
}

impl vstd::std_specs::convert::FromSpecImpl<String> for Value {
    open spec fn obeys_from_spec() -> bool {
        true
    }

    open spec fn from_spec(v: String) -> Value {
        Value::String(v)
    }
}

impl From<bool> for Value {
    fn from(v: bool) -> (r: Value) {
        Value::Boolean(v)
    }
}

impl vstd::std_specs::convert::FromSpecImpl<bool> for Value {
    open spec fn obeys_from_spec() -> bool {
        true
    }

    open spec fn from_spec(v: bool) -> Value {
        Value::Boolean(v)
    }
}

/// A value as written in the configuration document, before it is checked
/// against the declared kind. The string `"$default"` is a sentinel that
/// stands for the base value or percentage of the owning feature or property.
#[derive(Debug)]
pub enum ConfigValue {
    Numeric(NumericValue),
    String(String),
    Boolean(bool),
}

impl View for ConfigValue {
    type V = ScalarView;

    open spec fn view(&self) -> ScalarView {
        match self {
            ConfigValue::Numeric(n) => ScalarView::Numeric(n@),
            ConfigValue::String(s) => ScalarView::String(s@),
            ConfigValue::Boolean(b) => ScalarView::Boolean(*b),
        }
    }
}

impl Clone for ConfigValue {
    fn clone(&self) -> (r: Self)
        ensures
            r == *self,
    {
        match self {
            ConfigValue::Numeric(n) => ConfigValue::Numeric(*n),
            ConfigValue::String(s) => ConfigValue::String(s.clone()),
            ConfigValue::Boolean(b) => ConfigValue::Boolean(*b),
        }
    }
}

/// The sentinel that a targeting rule writes for "inherit the base value".
pub open spec fn default_sentinel() -> Seq<char> {
    seq!['$', 'd', 'e', 'f', 'a', 'u', 'l', 't']
}

/// Whether a configured value is the `"$default"` sentinel.
pub open spec fn is_default_spec(v: ScalarView) -> bool {
    match v {
        ScalarView::String(s) => s == default_sentinel(),
        _ => false,
    }
}

/// Whether two character sequences are equal, compared char by char.
pub fn text_eq(a: &str, b: &str) -> (r: bool)
    ensures
        r == (a@ == b@),
{
    let n = a.unicode_len();
    if n != b.unicode_len() {
        return false;
    }
    let mut i: usize = 0;
    while i < n
        invariant
            n == a@.len(),
            n == b@.len(),
            i <= n,
            forall|j: int| 0 <= j < i ==> a@[j] == b@[j],
        decreases n - i,
    {
        if a.get_char(i) != b.get_char(i) {
            return false;
        }
        i += 1;
    }
    assert(a@ =~= b@);
    true
}

impl ConfigValue {
    /// The number, where this is a number that fits in an `i64`.
    pub fn as_i64(&self) -> (r: Option<i64>)
        ensures
            r == (match self {
                ConfigValue::Numeric(n) => if i64::MIN <= n@ <= i64::MAX {
                    Some(n@ as i64)
                } else {
                    None
                },
                _ => None,
            }),
    {
        match self {
            ConfigValue::Numeric(n) => n.as_i64(),
            _ => None,
        }
    }

    /// The number, where this is a number that fits in a `u64`.
    pub fn as_u64(&self) -> (r: Option<u64>)
        ensures
            r == (match self {
                ConfigValue::Numeric(n) => if 0 <= n@ <= u64::MAX {
                    Some(n@ as u64)
                } else {
                    None
                },
                _ => None,
            }),
    {
        match self {
            ConfigValue::Numeric(n) => n.as_u64(),
            _ => None,
        }
    }

    /// The boolean, where this is a boolean.
    pub fn as_boolean(&self) -> (r: Option<bool>)
        ensures
            r == (match self@ {
                ScalarView::Boolean(b) => Some(b),
                _ => None,
            }),
    {
        match self {
            ConfigValue::Boolean(b) => Some(*b),
            _ => None,
        }
    }

    /// A copy of the string, where this is a string.
    pub fn as_string(&self) -> (r: Option<String>)
        ensures
            match self@ {
                ScalarView::String(s) => r.is_some() && r.unwrap()@ == s,
                _ => r.is_none(),
            },
    {
        match self {
            ConfigValue::String(s) => Some(s.clone()),
            _ => None,
        }
    }

    /// Whether this is the `"$default"` sentinel.
    pub fn is_default(&self) -> (r: bool)
        ensures
            r == is_default_spec(self@),
    {
        match self {
            ConfigValue::String(s) => {
                proof {
                    reveal_strlit("$default");
                }
                assert("$default"@ =~= default_sentinel());
                text_eq(s.as_str(), "$default")
            },
            _ => false,
        }
    }
}

} // verus!
