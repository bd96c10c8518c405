//! The operators and the identifiers as text.

use vstd::prelude::*;
use super::syntax::{ArithmeticOperator, BinaryOperator, ComparisonOperator, Identifier};

verus! {

impl ArithmeticOperator {
    /// The operator as it is written.
    pub open spec fn text(self) -> Seq<char> {
        match self {
            ArithmeticOperator::Add => "+"@,
            ArithmeticOperator::Subtract => "-"@,
            ArithmeticOperator::Multiply => "*"@,
            ArithmeticOperator::Divide => "/"@,
        }
    }

    pub fn to_string(&self) -> (text: String)
        ensures
            text@ == self.text(),
    {
        match self {
            ArithmeticOperator::Add => "+".to_owned(),
            ArithmeticOperator::Subtract => "-".to_owned(),
            ArithmeticOperator::Multiply => "*".to_owned(),
            ArithmeticOperator::Divide => "/".to_owned(),
        }
    }
}

impl ComparisonOperator {
    /// The operator as it is written.
    pub open spec fn text(self) -> Seq<char> {
        match self {
            ComparisonOperator::Equal => "=="@,
            ComparisonOperator::NotEqual => "!="@,
            ComparisonOperator::LessThan => "<"@,
            ComparisonOperator::LessOrEqual => "<="@,
            ComparisonOperator::GreaterThan => ">"@,
            ComparisonOperator::GreaterOrEqual => ">="@,
        }
    }

    pub fn to_string(&self) -> (text: String)
        ensures
            text@ == self.text(),
    {
        match self {
            ComparisonOperator::Equal => "==".to_owned(),
            ComparisonOperator::NotEqual => "!=".to_owned(),
            ComparisonOperator::LessThan => "<".to_owned(),
            ComparisonOperator::LessOrEqual => "<=".to_owned(),
            ComparisonOperator::GreaterThan => ">".to_owned(),
            ComparisonOperator::GreaterOrEqual => ">=".to_owned(),
        }
    }
}

impl BinaryOperator {
    /// The operator as it is written.
    pub open spec fn text(self) -> Seq<char> {
        match self {
            BinaryOperator::ArithmeticOperator(operator) => operator.text(),
            BinaryOperator::ComparisonOperator(operator) => operator.text(),
        }
    }

    pub fn to_string(&self) -> (text: String)
        ensures
            text@ == self.text(),
    {
        match self {
            BinaryOperator::ArithmeticOperator(operator) => operator.to_string(),
            BinaryOperator::ComparisonOperator(operator) => operator.to_string(),
        }
    }
}

impl Identifier {
    /// The name.
    pub fn to_string(&self) -> (text: String)
        ensures
            text@ == self@,
    {
        self.0.clone()
    }
}

} // verus!
