//! Field values as they appear in a decoded wire payload. The dispatch engine
//! never inspects a value; it only binds values to declared field names and
//! hands them to the called method.

use vstd::prelude::*;

verus! {

/// One decoded field value.
#[derive(Debug, PartialEq, Eq)]
pub enum Value {
    /// A text value.
    Str(String),
    /// A non-negative number.
    Uint(u64),
    /// A truth value.
    Flag(bool),
    /// A list of text values.
    List(Vec<String>),
    /// An explicit null.
    Null,
}

/// The mathematical shape of a field value.
pub enum ValueView {
    Str(Seq<char>),
    Uint(int),
    Flag(bool),
    List(Seq<Seq<char>>),
    Null,
}

impl View for Value {
    type V = ValueView;

    open spec fn view(&self) -> ValueView {
        match self {
            Value::Str(s) => ValueView::Str(s@),
            Value::Uint(n) => ValueView::Uint(*n as int),
            Value::Flag(b) => ValueView::Flag(*b),
            Value::List(l) => ValueView::List(crate::text::views_of(l@)),
            Value::Null => ValueView::Null,
        }
    }
}

impl Value {
    /// A copy with the same shape.
    pub fn duplicate(&self) -> (r: Value)
        ensures
            r@ == self@,
    {
        match self {
            Value::Str(s) => Value::Str(s.clone()),
            Value::Uint(n) => Value::Uint(*n),
            Value::Flag(b) => Value::Flag(*b),
            Value::List(l) => {
                let mut c: Vec<String> = Vec::new();
                let mut i: usize = 0;
                while i < l.len()
                    invariant
                        i <= l@.len(),
                        c@.len() == i,
                        forall|k: int| 0 <= k < i ==> (#[trigger] c@[k])@ == l@[k]@,
                    decreases l@.len() - i,
                {
                    c.push(l[i].clone());
                    i = i + 1;
                }
                proof {
                    assert(crate::text::views_of(c@) =~= crate::text::views_of(l@));
                }
                Value::List(c)
            },
            Value::Null => Value::Null,
        }
    }
}

/// One named field of a decoded message body.
#[derive(Debug)]
pub struct PayloadField {
    pub name: String,
    pub value: Value,
}

/// One entry of the decoded top-level object: the operation name against the
/// message body.
#[derive(Debug)]
pub struct TopEntry {
    pub key: String,
    pub body: Vec<PayloadField>,
}

/// The views of a message body: each field's name and value shape, in order.
pub open spec fn body_views(fields: Seq<PayloadField>) -> Seq<(Seq<char>, ValueView)> {
    fields.map_values(|f: PayloadField| (f.name@, f.value@))
}

/// The views of a list of values.
pub open spec fn value_views(values: Seq<Value>) -> Seq<ValueView> {
    values.map_values(|v: Value| v@)
}

} // verus!
