//! Structured include/exclude filters over the three record fields.

use vstd::prelude::*;
use vstd::string::StringExecFns;

verus! {

/// The record field a structured filter was created from.
#[derive(Clone, Copy, PartialEq, Eq, Structural, Debug)]
pub enum TransactionFilterField {
    From,
    To,
    Message,
}

/// Whether a structured filter narrows the feed to matching records
/// (`Include`) or suppresses matching records (`Exclude`).
#[derive(Clone, Copy, PartialEq, Eq, Structural, Debug)]
pub enum TransactionFilterOperation {
    Include,
    Exclude,
}

/// One structured filter entry: a field tag, an operation, and the exact
/// value the entry was created from.
#[derive(Debug)]
pub struct TransactionFilter {
    pub field: TransactionFilterField,
    pub operation: TransactionFilterOperation,
    pub text: String,
}

/// Mathematical image of a [`TransactionFilter`].
pub ghost struct TransactionFilterView {
    pub field: TransactionFilterField,
    pub operation: TransactionFilterOperation,
    pub text: Seq<char>,
}

impl View for TransactionFilter {
    type V = TransactionFilterView;

    open spec fn view(&self) -> TransactionFilterView {
        TransactionFilterView {
            field: self.field,
            operation: self.operation,
            text: self.text@,
        }
    }
}

impl Clone for TransactionFilter {
    fn clone(&self) -> (r: Self)
        ensures
            r@ == self@,
    {
        TransactionFilter {
            field: self.field,
            operation: self.operation,
            text: self.text.clone(),
        }
    }
}

/// The displayed name of the field an entry was created from.
pub open spec fn field_name(f: TransactionFilterField) -> Seq<char> {
    match f {
        TransactionFilterField::From => "from"@,
        TransactionFilterField::To => "to"@,
        TransactionFilterField::Message => "message"@,
    }
}

/// The badge text of an entry: `NOT ` for an exclusion, then the field
/// name, a colon, and the value.
pub open spec fn label_spec(fv: TransactionFilterView) -> Seq<char> {
    let prefix: Seq<char> = if fv.operation is Exclude {
        "NOT "@
    } else {
        Seq::empty()
    };
    prefix + field_name(fv.field) + ":"@ + fv.text
}

impl TransactionFilter {
    /// The badge text of this entry: `NOT ` for an exclusion, then the
    /// field name, a colon, and the value.
    pub fn label(&self) -> (r: String)
        ensures
            r@ == label_spec(self@),
    {
        let mut s = String::new();
        if self.operation == TransactionFilterOperation::Exclude {
            s.append("NOT ");
        }
        match self.field {
            TransactionFilterField::From => s.append("from"),
            TransactionFilterField::To => s.append("to"),
            TransactionFilterField::Message => s.append("message"),
        }
        s.append(":");
        s.append(self.text.as_str());
        proof {
            assert(s@ =~= label_spec(self@));
        }
        s
    }
}

impl vstd::std_specs::cmp::PartialEqSpecImpl for TransactionFilter {
    open spec fn obeys_eq_spec() -> bool {
        true
    }

    open spec fn eq_spec(&self, other: &Self) -> bool {
        self@ == other@
    }
}

impl PartialEq for TransactionFilter {
    fn eq(&self, other: &Self) -> (r: bool) {
        self.field == other.field && self.operation == other.operation && self.text == other.text
    }
}

} // verus!
