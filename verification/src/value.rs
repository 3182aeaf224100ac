//! Runtime values and their rendering.

use vstd::prelude::*;
use crate::error::{IntyError, SpecError};
use crate::text::{decimal, push_decimal};

verus! {

/// The result of evaluating an expression.
#[derive(Debug, PartialEq)]
pub enum Value {
    Integer(i32),
    Bool(bool),
    List(Vec<Value>),
}

/// The mathematical model of a [`Value`].
pub enum SpecValue {
    Integer(i32),
    Bool(bool),
    List(Seq<SpecValue>),
}

impl Value {
    /// The model of the value.
    pub open spec fn view(&self) -> SpecValue
        decreases self,
    {
        match self {
            Value::Integer(value) => SpecValue::Integer(*value),
            Value::Bool(value) => SpecValue::Bool(*value),
            Value::List(items) => SpecValue::List(view_values(items@)),
        }
    }
}

/// The models of a sequence of values, in order.
pub open spec fn view_values(values: Seq<Value>) -> Seq<SpecValue>
    decreases values,
{
    if values.len() == 0 {
        Seq::empty()
    } else {
        view_values(values.drop_last()).push(values.last()@)
    }
}

/// `view_values` maps each value to its model, position by position.
pub proof fn lemma_view_values(values: Seq<Value>)
    ensures
        view_values(values).len() == values.len(),
        forall|i: int| 0 <= i < values.len() ==> (#[trigger] view_values(values)[i]) == values[i]@,
    decreases values.len(),
{
    if values.len() > 0 {
        lemma_view_values(values.drop_last());
    }
}

/// The model of an optional value.
pub open spec fn view_opt_value(value: Option<Value>) -> Option<SpecValue> {
    match value {
        Some(v) => Some(v@),
        None => None,
    }
}

impl SpecValue {
    /// The text a value is shown as: an integer as its decimal numeral, a
    /// boolean as `true` or `false`, a list as its elements between square
    /// brackets, separated by a comma and a space.
    pub open spec fn render(self) -> Seq<char>
        decreases self,
    {
        match self {
            SpecValue::Integer(value) => decimal(value as int),
            SpecValue::Bool(value) => if value {
                "true"@
            } else {
                "false"@
            },
            SpecValue::List(items) => seq!['['] + render_joined(items) + seq![']'],
        }
    }

    /// The integer in the value, if it is one.
    pub open spec fn as_integer(self) -> Option<i32> {
        match self {
            SpecValue::Integer(value) => Some(value),
            _ => None,
        }
    }

    /// The boolean in the value, if it is one.
    pub open spec fn as_bool(self) -> Option<bool> {
        match self {
            SpecValue::Bool(value) => Some(value),
            _ => None,
        }
    }

    /// The integer operand that the value stands for, or the type error that
    /// names the value.
    pub open spec fn to_integer(self) -> Result<i32, SpecError> {
        match self {
            SpecValue::Integer(value) => Ok(value),
            _ => Err(SpecError::TypeError { message: self.render() + " is not an integer"@ }),
        }
    }

    /// The truth value that the value stands for: a boolean is itself, an
    /// integer is true exactly when it is greater than zero, and a list gives
    /// the type error that names the value.
    pub open spec fn to_bool(self) -> Result<bool, SpecError> {
        match self {
            SpecValue::Bool(value) => Ok(value),
            SpecValue::Integer(value) => Ok(value > 0),
            _ => Err(SpecError::TypeError { message: self.render() + " is not a boolean"@ }),
        }
    }
}

/// The renderings of `items`, separated by a comma and a space.
pub open spec fn render_joined(items: Seq<SpecValue>) -> Seq<char>
    decreases items,
{
    if items.len() == 0 {
        Seq::empty()
    } else if items.len() == 1 {
        items[0].render()
    } else {
        render_joined(items.drop_last()) + ", "@ + items.last().render()
    }
}

impl Clone for Value {
    fn clone(&self) -> (copy: Self)
        ensures
            copy@ == self@,
        decreases self,
    {
        match self {
            Value::Integer(value) => Value::Integer(*value),
            Value::Bool(value) => Value::Bool(*value),
            Value::List(items) => {
                let mut copies: Vec<Value> = Vec::new();
                let mut i: usize = 0;
                while i < items.len()
                    invariant
                        i <= items.len(),
                        copies.len() == i,
                        forall|j: int| 0 <= j < i ==> copies@[j]@ == items@[j]@,
                        *self == Value::List(*items),
                    decreases items.len() - i,
                {
                    assert(decreases_to!(self => self->List_0[i as int]));
                    copies.push(items[i].clone());
                    i += 1;
                }
                let copy = Value::List(copies);
                proof {
                    lemma_view_values(copies@);
                    lemma_view_values(items@);
                    assert(copy@->List_0 =~= self@->List_0);
                }
                copy
            },
        }
    }
}

impl Value {
    /// Appends the value's rendering to `out`.
    pub fn write_to(&self, out: &mut String)
        ensures
            final(out)@ == old(out)@ + self@.render(),
        decreases self,
    {
        match self {
            Value::Integer(value) => push_decimal(out, *value),
            Value::Bool(value) => {
                if *value {
                    out.append("true");
                } else {
                    out.append("false");
                }
            },
            Value::List(items) => {
                out.push('[');
                let ghost start = out@;
                let ghost models = self@->List_0;
                proof {
                    lemma_view_values(items@);
                }
                let mut i: usize = 0;
                while i < items.len()
                    invariant
                        i <= items.len(),
                        *self == Value::List(*items),
                        models.len() == items.len(),
                        forall|j: int| 0 <= j < items.len() ==> models[j] == items@[j]@,
                        out@ == start + render_joined(models.take(i as int)),
                    decreases items.len() - i,
                {
                    assert(decreases_to!(self => self->List_0[i as int]));
                    if i > 0 {
                        out.append(", ");
                    }
                    items[i].write_to(out);
                    proof {
                        let done = models.take(i as int);
                        let next = models.take(i + 1);
                        assert(next.drop_last() =~= done);
                        assert(next.last() == items@[i as int]@);
                        assert(out@ =~= start + render_joined(next));
                    }
                    i += 1;
                }
                assert(models.take(i as int) =~= models);
                out.push(']');
                assert(out@ =~= old(out)@ + self@.render());
            },
        }
    }

    /// The text the value is shown as.
    pub fn to_string(&self) -> (text: String)
        ensures
            text@ == self@.render(),
    {
        let mut text = String::new();
        self.write_to(&mut text);
        assert(text@ =~= self@.render());
        text
    }

    /// The integer in the value, if it is one.
    pub fn unwrap_integer(&self) -> (found: Option<i32>)
        ensures
            found == self@.as_integer(),
    {
        match self {
            Value::Integer(value) => Some(*value),
            _ => None,
        }
    }

    /// The boolean in the value, if it is one.
    pub fn unwrap_bool(&self) -> (found: Option<bool>)
        ensures
            found == self@.as_bool(),
    {
        match self {
            Value::Bool(value) => Some(*value),
            _ => None,
        }
    }

    /// The value as an integer operand; a value of another kind is a type
    /// error.
    pub fn try_parse_int(&self) -> (parsed: Result<i32, IntyError>)
        ensures
            match self@.to_integer() {
                Ok(value) => parsed == Ok::<i32, IntyError>(value),
                Err(error) => parsed is Err && parsed->Err_0@ == error,
            },
    {
        match self {
            Value::Integer(value) => Ok(*value),
            _ => {
                let mut message = self.to_string();
                message.append(" is not an integer");
                Err(IntyError::TypeError { message })
            },
        }
    }

    /// The value as a truth value: an integer counts as true exactly when it
    /// is greater than zero; a list is a type error.
    pub fn try_parse_bool(&self) -> (parsed: Result<bool, IntyError>)
        ensures
            match self@.to_bool() {
                Ok(value) => parsed == Ok::<bool, IntyError>(value),
                Err(error) => parsed is Err && parsed->Err_0@ == error,
            },
    {
        match self {
            Value::Bool(value) => Ok(*value),
            Value::Integer(value) => Ok(*value > 0),
            _ => {
                let mut message = self.to_string();
                message.append(" is not a boolean");
                Err(IntyError::TypeError { message })
            },
        }
    }
}

} // verus!
