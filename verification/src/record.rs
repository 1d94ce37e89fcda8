//! The records of the address book.

use vstd::prelude::*;
use vstd::string::StringExecFns;

verus! {

/// Who a record is about: a person, a company, or a person at a company.
/// Exactly one of the three shapes is present.
#[derive(Debug, Clone, PartialEq, Eq)]
pub enum Identifier {
    Name(String),
    Company(String),
    /// The company first, then the name.
    Both(String, String),
}

/// One record: who it is about and their phone number.
#[derive(Debug, Clone, PartialEq, Eq)]
pub struct Customer {
    pub identifier: Identifier,
    pub phone: String,
}

/// The mathematical content of an `Identifier`.
pub enum IdentifierView {
    Name(Seq<char>),
    Company(Seq<char>),
    Both(Seq<char>, Seq<char>),
}

/// The mathematical content of a `Customer`.
pub struct CustomerView {
    pub identifier: IdentifierView,
    pub phone: Seq<char>,
}

impl View for Identifier {
    type V = IdentifierView;

    open spec fn view(&self) -> IdentifierView {
        match *self {
            Identifier::Name(name) => IdentifierView::Name(name@),
            Identifier::Company(company) => IdentifierView::Company(company@),
            Identifier::Both(company, name) => IdentifierView::Both(company@, name@),
        }
    }
}

impl View for Customer {
    type V = CustomerView;

    open spec fn view(&self) -> CustomerView {
        CustomerView { identifier: self.identifier@, phone: self.phone@ }
    }
}

/// The contents of a list of records.
pub open spec fn views(records: Seq<Customer>) -> Seq<CustomerView> {
    records.map_values(|c: Customer| c@)
}

impl CustomerView {
    /// The line that shows the record: the identifier, the phone number, and
    /// a carriage return and line feed at the end.
    pub open spec fn line(self) -> Seq<char> {
        let who = match self.identifier {
            IdentifierView::Name(name) => "  Name: "@ + name + ", "@,
            IdentifierView::Company(company) => "  Company: "@ + company + ", "@,
            IdentifierView::Both(company, name) => "  Company: "@ + company + ", Name: "@ + name
                + ", "@,
        };
        who + "Phone: "@ + self.phone + "\r\n"@
    }
}

impl Customer {
    /// The line that shows the record.
    pub fn line(&self) -> (text: String)
        ensures
            text@ == self@.line(),
    {
        let mut text = String::new();
        match &self.identifier {
            Identifier::Name(name) => {
                text.append("  Name: ");
                text.append(name.as_str());
            },
            Identifier::Company(company) => {
                text.append("  Company: ");
                text.append(company.as_str());
            },
            Identifier::Both(company, name) => {
                text.append("  Company: ");
                text.append(company.as_str());
                text.append(", Name: ");
                text.append(name.as_str());
            },
        }
        text.append(", ");
        text.append("Phone: ");
        text.append(self.phone.as_str());
        text.append("\r\n");
        assert(text@ =~= self@.line());
        text
    }
}

/// The three records that the book starts with.
pub open spec fn sample() -> Seq<CustomerView> {
    seq![
        CustomerView { identifier: IdentifierView::Name("Alice"@), phone: "1234567890"@ },
        CustomerView { identifier: IdentifierView::Company("Acme Inc"@), phone: "9876543210"@ },
        CustomerView {
            identifier: IdentifierView::Both("Test Company"@, "Bob"@),
            phone: "10293848576"@,
        },
    ]
}

/// The three records that the book starts with.
pub fn sample_data() -> (records: Vec<Customer>)
    ensures
        views(records@) == sample(),
{
    let mut records: Vec<Customer> = Vec::new();
    records.push(
        Customer {
            identifier: Identifier::Name("Alice".to_owned()),
            phone: "1234567890".to_owned(),
        },
    );
    records.push(
        Customer {
            identifier: Identifier::Company("Acme Inc".to_owned()),
            phone: "9876543210".to_owned(),
        },
    );
    records.push(
        Customer {
            identifier: Identifier::Both("Test Company".to_owned(), "Bob".to_owned()),
            phone: "10293848576".to_owned(),
        },
    );
    assert(views(records@) =~= sample());
    records
}

} // verus!
