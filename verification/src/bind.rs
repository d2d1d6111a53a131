//! A statement with its parameters, ready for a database driver.
//!
//! A driver needs the statement's text, each parameter with the type of
//! the column that it stands for, so that even a `NULL` is bound with its
//! type, and the kinds of the values that come back. [`Statement::prepare`]
//! gives all three, and refuses what the engine refuses.

use vstd::prelude::*;
use crate::render::sql_text;
use crate::semantics::{kinds_fit, refusal, Error};
use crate::statement::Statement;
use crate::table::row_view;
use crate::value::{copy_bytes, Value, ValueKind, ValueView};

verus! {

/// A parameter as a driver binds it: a value, or no value, of a given kind.
#[derive(Debug, PartialEq, Eq)]
pub enum Parameter {
    /// A flag, or `NULL` where a flag belongs.
    Bool(Option<bool>),
    /// A piece of text, or `NULL` where text belongs.
    Text(Option<String>),
    /// A payload, or `NULL` where a payload belongs.
    Blob(Option<Vec<u8>>),
}

impl Parameter {
    /// The kind of column that the parameter stands for.
    pub open spec fn spec_kind(&self) -> ValueKind {
        match self {
            Parameter::Bool(_) => ValueKind::Bool,
            Parameter::Text(_) => ValueKind::Text,
            Parameter::Blob(_) => ValueKind::Blob,
        }
    }

    /// What the parameter holds.
    pub open spec fn spec_value(&self) -> ValueView {
        match self {
            Parameter::Bool(Some(b)) => ValueView::Bool(*b),
            Parameter::Text(Some(s)) => ValueView::Text(s@),
            Parameter::Blob(Some(b)) => ValueView::Blob(b@),
            _ => ValueView::Null,
        }
    }

    /// The kind of column that the parameter stands for.
    pub fn kind(&self) -> (r: ValueKind)
        ensures
            r == self.spec_kind(),
    {
        match self {
            Parameter::Bool(_) => ValueKind::Bool,
            Parameter::Text(_) => ValueKind::Text,
            Parameter::Blob(_) => ValueKind::Blob,
        }
    }

    /// The value with the kind of the column that it stands for; `None` if
    /// the value is of another kind, or if the column holds timestamps.
    pub fn typed(value: &Value, kind: ValueKind) -> (r: Option<Parameter>)
        ensures
            r is Some == (kind != ValueKind::Time && value@.fits(kind)),
            r matches Some(p) ==> p.spec_kind() == kind && p.spec_value() == value@,
    {
        match kind {
            ValueKind::Bool => match value {
                Value::Null => Some(Parameter::Bool(None)),
                Value::Bool(b) => Some(Parameter::Bool(Some(*b))),
                _ => None,
            },
            ValueKind::Text => match value {
                Value::Null => Some(Parameter::Text(None)),
                Value::Text(s) => Some(Parameter::Text(Some(s.clone()))),
                _ => None,
            },
            ValueKind::Blob => match value {
                Value::Null => Some(Parameter::Blob(None)),
                Value::Blob(b) => Some(Parameter::Blob(Some(copy_bytes(b)))),
                _ => None,
            },
            ValueKind::Time => None,
        }
    }
}

/// A statement with its parameters, ready for a driver.
#[derive(Debug, PartialEq, Eq)]
pub struct Prepared {
    /// The statement's SQL text.
    pub sql: String,
    /// The parameters, in the order in which the text numbers them.
    pub parameters: Vec<Parameter>,
    /// The kinds of the values in each result row.
    pub results: Vec<ValueKind>,
}

impl Statement {
    /// The statement with its parameters, ready for a driver.
    ///
    /// It is refused exactly when the engine refuses the statement before
    /// it looks at the table, and with the same error. Otherwise the text
    /// is the statement's text, each parameter holds the value given for it
    /// and has the kind of its column, and the kinds of the results are
    /// those of the columns that the statement shows; none of them is a
    /// timestamp.
    pub fn prepare(&self, args: &Vec<Value>) -> (r: Result<Prepared, Error>)
        ensures
            match r {
                Ok(p) => {
                    &&& refusal(self@, row_view(args@)) is None
                    &&& p.sql@ == sql_text(self@)
                    &&& p.parameters@.len() == args@.len()
                    &&& forall|i: int|
                        0 <= i < args@.len() ==> (#[trigger] p.parameters@[i]).spec_value()
                            == args@[i]@ && p.parameters@[i].spec_kind() == self@.param_kind(i)
                    &&& p.results@.len() == self@.result_width()
                    &&& forall|i: int|
                        0 <= i < p.results@.len() ==> #[trigger] p.results@[i]
                            == self@.result_kind(i) && p.results@[i] != ValueKind::Time
                },
                Err(e) => refusal(self@, row_view(args@)) == Some(e),
            },
    {
        let sql = match self.sql() {
            Ok(sql) => sql,
            Err(e) => {
                return Err(e);
            },
        };
        let kinds = match self.parameter_kinds() {
            Some(kinds) => kinds,
            None => {
                return Err(Error::Malformed);
            },
        };
        let results = match self.result_kinds() {
            Some(results) => results,
            None => {
                return Err(Error::Malformed);
            },
        };
        if args.len() != kinds.len() {
            return Err(Error::ParameterCount);
        }
        let ghost av = row_view(args@);
        let mut parameters: Vec<Parameter> = Vec::new();
        let mut i: usize = 0;
        while i < args.len()
            invariant
                i <= args.len(),
                parameters.len() == i,
                av == row_view(args@),
                self@.wf(),
                kinds@.len() == args@.len(),
                kinds@.len() == self@.arity(),
                forall|k: int| 0 <= k < kinds@.len() ==> #[trigger] kinds@[k] == self@.param_kind(k),
                forall|k: int|
                    0 <= k < i ==> (#[trigger] parameters@[k]).spec_value() == av[k]
                        && parameters@[k].spec_kind() == self@.param_kind(k),
                forall|k: int| 0 <= k < i ==> (#[trigger] av[k]).fits(self@.param_kind(k)),
            decreases args.len() - i,
        {
            assert(kinds@[i as int] == self@.param_kind(i as int));
            assert(self@.table().spec_kind(self@.targets()[i as int] as int) != ValueKind::Time);
            match Parameter::typed(&args[i], kinds[i]) {
                Some(p) => {
                    parameters.push(p);
                },
                None => {
                    assert(!av[i as int].fits(self@.param_kind(i as int)));
                    assert(!kinds_fit(self@, av));
                    return Err(Error::ParameterKind);
                },
            }
            i += 1;
        }
        assert(kinds_fit(self@, av));
        assert forall|k: int| 0 <= k < results@.len() implies #[trigger] results@[k]
            != ValueKind::Time by {
            assert(results@[k] == self@.result_kind(k));
            assert(self@.table().spec_kind(self@.shown()[k] as int) != ValueKind::Time);
        }
        Ok(Prepared { sql, parameters, results })
    }
}

} // verus!
