//! Why a module cannot be instrumented.
use std::num::TryFromIntError;
use vstd::prelude::*;
use wasmparser::BinaryReaderError;

verus! {

/// Why a module cannot be instrumented.
#[derive(Debug)]
pub enum Error {
    ParseElement(BinaryReaderError),
    ParseElementItem(BinaryReaderError),
    ParseElementExpression(BinaryReaderError),
    ParseLocals(BinaryReaderError),
    ParseLocal(BinaryReaderError),
    ParseOperators(BinaryReaderError),
    ParseOperator(BinaryReaderError),
    ParseExport(BinaryReaderError),
    ParseGlobal(BinaryReaderError),
    ParseName(BinaryReaderError),
    ParseNameMapName(BinaryReaderError),
    ParseIndirectNameMapName(BinaryReaderError),
    ParseModuleSection(BinaryReaderError),
    ParseType(BinaryReaderError),
    ParseImport(BinaryReaderError),
    ParseFunctionTyId(BinaryReaderError),
    ParseConstExprOperator(BinaryReaderError),
    FunctionMissingInAnalysisOutcome(&'static str, usize),
    SizeTooLarge(&'static str, usize, TryFromIntError),
    InsufficientFunctionTypes,
    InvalidTypeIndex,
}

/// Why the instrumentation stopped.
#[derive(Debug)]
pub enum Stop {
    /// The module or its analysis is at fault.
    Failed(Error),
    /// An index, a size or a position left the range of numbers that there is for it.
    OutOfRange,
}

/// A number in decimal digits.
pub open spec fn decimal(n: nat) -> Seq<char>
    decreases n,
{
    if n < 10 {
        seq![('0' as nat + n) as char]
    } else {
        decimal(n / 10).push(('0' as nat + n % 10) as char)
    }
}

fn digit(n: usize) -> (r: &'static str)
    requires
        n < 10,
    ensures
        r@ == seq![('0' as nat + n) as char],
{
    proof {
        reveal_strlit("0");
        reveal_strlit("1");
        reveal_strlit("2");
        reveal_strlit("3");
        reveal_strlit("4");
        reveal_strlit("5");
        reveal_strlit("6");
        reveal_strlit("7");
        reveal_strlit("8");
        reveal_strlit("9");
    }
    let r = match n {
        0 => "0",
        1 => "1",
        2 => "2",
        3 => "3",
        4 => "4",
        5 => "5",
        6 => "6",
        7 => "7",
        8 => "8",
        _ => "9",
    };
    assert(r@ =~= seq![('0' as nat + n) as char]);
    r
}

fn decimal_of(n: usize) -> (r: String)
    ensures
        r@ == decimal(n as nat),
    decreases n,
{
    if n < 10 {
        String::from_str(digit(n))
    } else {
        let mut r = decimal_of(n / 10);
        r.append(digit(n % 10));
        assert(r@ =~= decimal(n as nat));
        r
    }
}

impl Error {
    /// What went wrong, in words.
    pub open spec fn text(self) -> Seq<char> {
        match self {
            Error::ParseElement(_) => "could not parse an element"@,
            Error::ParseElementItem(_) => "could not parse an element item"@,
            Error::ParseElementExpression(_) => "could not parse an element expression"@,
            Error::ParseLocals(_) => "could not parse the function locals"@,
            Error::ParseLocal(_) => "could not parse a function local"@,
            Error::ParseOperators(_) => "could not parse the function operators"@,
            Error::ParseOperator(_) => "could not parse an operator"@,
            Error::ParseExport(_) => "could not parse an export"@,
            Error::ParseGlobal(_) => "could not parse a global"@,
            Error::ParseName(_) => "could not parse a name section entry"@,
            Error::ParseNameMapName(_) => "could not parse a name map entry"@,
            Error::ParseIndirectNameMapName(_) => "could not parse an indirect name map entry"@,
            Error::ParseModuleSection(_) => "could not parse a module section header"@,
            Error::ParseType(_) => "could not parse a type section entry"@,
            Error::ParseImport(_) => "could not parse an import section entry"@,
            Error::ParseFunctionTyId(_) => "could not parse a function section entry"@,
            Error::ParseConstExprOperator(_) => "could not parse a constant expression operator"@,
            Error::FunctionMissingInAnalysisOutcome(field, index) => {
                "the analysis outcome missing a "@ + field@ + " entry for code section entry `"@
                    + decimal(index as nat) + "`"@
            },
            Error::SizeTooLarge(field, index, _) => {
                field@ + " is too large to fit into i64 for code section entry `"@ + decimal(
                    index as nat,
                ) + "`"@
            },
            Error::InsufficientFunctionTypes => {
                "module contains fewer function types than definitions"@
            },
            Error::InvalidTypeIndex => "module contains a reference to an invalid type index"@,
        }
    }

    /// What went wrong, in words.
    pub fn message(&self) -> (r: String)
        ensures
            r@ == self.text(),
    {
        match self {
            Error::ParseElement(_) => String::from_str("could not parse an element"),
            Error::ParseElementItem(_) => String::from_str("could not parse an element item"),
            Error::ParseElementExpression(_) => String::from_str(
                "could not parse an element expression",
            ),
            Error::ParseLocals(_) => String::from_str("could not parse the function locals"),
            Error::ParseLocal(_) => String::from_str("could not parse a function local"),
            Error::ParseOperators(_) => String::from_str("could not parse the function operators"),
            Error::ParseOperator(_) => String::from_str("could not parse an operator"),
            Error::ParseExport(_) => String::from_str("could not parse an export"),
            Error::ParseGlobal(_) => String::from_str("could not parse a global"),
            Error::ParseName(_) => String::from_str("could not parse a name section entry"),
            Error::ParseNameMapName(_) => String::from_str("could not parse a name map entry"),
            Error::ParseIndirectNameMapName(_) => String::from_str(
                "could not parse an indirect name map entry",
            ),
            Error::ParseModuleSection(_) => String::from_str(
                "could not parse a module section header",
            ),
            Error::ParseType(_) => String::from_str("could not parse a type section entry"),
            Error::ParseImport(_) => String::from_str("could not parse an import section entry"),
            Error::ParseFunctionTyId(_) => String::from_str(
                "could not parse a function section entry",
            ),
            Error::ParseConstExprOperator(_) => String::from_str(
                "could not parse a constant expression operator",
            ),
            Error::FunctionMissingInAnalysisOutcome(field, index) => {
                let mut r = String::from_str("the analysis outcome missing a ");
                r.append(field);
                r.append(" entry for code section entry `");
                r.append(decimal_of(*index).as_str());
                r.append("`");
                r
            },
            Error::SizeTooLarge(field, index, _) => {
                let mut r = String::from_str(field);
                r.append(" is too large to fit into i64 for code section entry `");
                r.append(decimal_of(*index).as_str());
                r.append("`");
                r
            },
            Error::InsufficientFunctionTypes => String::from_str(
                "module contains fewer function types than definitions",
            ),
            Error::InvalidTypeIndex => String::from_str(
                "module contains a reference to an invalid type index",
            ),
        }
    }
}

/// The number that decimal digits stand for.
pub open spec fn number_of(digits: Seq<char>) -> int
    decreases digits.len(),
{
    if digits.len() == 0 {
        0
    } else {
        10 * number_of(digits.drop_last()) + (digits.last() as int - '0' as int)
    }
}

/// That these are the decimal digits of a number, without a zero in front of them.
pub open spec fn is_decimal(digits: Seq<char>, n: nat) -> bool {
    &&& digits.len() >= 1
    &&& forall|i: int| 0 <= i < digits.len() ==> '0' <= #[trigger] digits[i] <= '9'
    &&& digits[0] == '0' ==> digits.len() == 1
    &&& number_of(digits) == n
}

/// A number is read back from its decimal digits.
pub proof fn law_number_is_read_back(n: nat)
    ensures
        is_decimal(decimal(n), n),
    decreases n,
{
    let digits = decimal(n);
    reveal_with_fuel(number_of, 2);
    if n >= 10 {
        law_number_is_read_back(n / 10);
        assert(digits.drop_last() =~= decimal(n / 10));
        if digits[0] == '0' {
            assert(decimal(n / 10)[0] == '0');
            assert(decimal(n / 10).drop_last() =~= Seq::empty());
        }
    } else {
        assert(digits.drop_last() =~= Seq::empty());
    }
}

/// What is said of a fault of the analysis names the list and, in decimal digits, the function
/// body.
pub proof fn law_message_names_list_and_body(
    field: &'static str,
    index: usize,
    error: TryFromIntError,
)
    ensures
        exists|digits: Seq<char>|
            #[trigger] is_decimal(digits, index as nat) && Error::FunctionMissingInAnalysisOutcome(
                field,
                index,
            ).text() == "the analysis outcome missing a "@ + field@
                + " entry for code section entry `"@ + digits + "`"@ && Error::SizeTooLarge(
                field,
                index,
                error,
            ).text() == field@ + " is too large to fit into i64 for code section entry `"@ + digits
                + "`"@,
{
    law_number_is_read_back(index as nat);
}

} // verus!
