//! Which of the available input ports a session listens to.

use crate::decimal::{
    append_decimal, decimal, is_digit, lemma_decimal_parses, lemma_decimal_value, parse_number,
    parsed, NumberError,
};
use crate::trim::{all_space, lemma_trim_around, trim, trimmed};
use vstd::prelude::*;
use vstd::string::*;

verus! {

/// Why no input port was chosen.
#[derive(Clone, Copy, Debug, PartialEq, Eq, Structural)]
pub enum ChooseError {
    /// There is no input port to choose from.
    NoPorts,
    /// The answer is not a number.
    NotANumber(NumberError),
    /// The answer is a number, and no port has it.
    InvalidPort,
}

impl ChooseError {
    /// What the user is told of this error.
    pub open spec fn text(self) -> Seq<char> {
        match self {
            ChooseError::NoPorts => "no input port found"@,
            ChooseError::NotANumber(e) => e.text(),
            ChooseError::InvalidPort => "invalid input port selected"@,
        }
    }

    /// What the user is told of this error.
    pub fn message(&self) -> (r: String)
        ensures
            r@ == self.text(),
    {
        match self {
            ChooseError::NoPorts => String::from_str("no input port found"),
            ChooseError::NotANumber(e) => e.message(),
            ChooseError::InvalidPort => String::from_str("invalid input port selected"),
        }
    }
}

/// The port that is chosen among `count` ports, numbered from zero, when the
/// user answers `answer`. With no port there is none to choose. A single port
/// is chosen without asking. Among several the answer decides: trimmed, it
/// must be the number of one of them.
pub open spec fn choice(count: nat, answer: Seq<char>) -> Result<usize, ChooseError> {
    if count == 0 {
        Err(ChooseError::NoPorts)
    } else if count == 1 {
        Ok(0usize)
    } else {
        match parsed(trimmed(answer)) {
            Err(e) => Err(ChooseError::NotANumber(e)),
            Ok(index) => if index < count {
                Ok(index)
            } else {
                Err(ChooseError::InvalidPort)
            },
        }
    }
}

/// Whether the user has to be asked which of `count` ports to take.
pub open spec fn asks(count: nat) -> bool {
    count >= 2
}

/// Whether the user has to be asked which of `count` ports to take. Where this
/// is false, `port_index` and `choose_input` give the same result for every
/// answer.
pub fn needs_answer(count: usize) -> (r: bool)
    ensures
        r == asks(count as nat),
{
    count >= 2
}

/// The number of the port that is chosen among `count` ports when the user
/// answers `answer`.
pub fn port_index(count: usize, answer: &str) -> (r: Result<usize, ChooseError>)
    ensures
        r == choice(count as nat, answer@),
{
    if count == 0 {
        Err(ChooseError::NoPorts)
    } else if count == 1 {
        Ok(0)
    } else {
        match parse_number(trim(answer)) {
            Err(e) => Err(ChooseError::NotANumber(e)),
            Ok(index) => if index < count {
                Ok(index)
            } else {
                Err(ChooseError::InvalidPort)
            },
        }
    }
}

/// The port that is chosen among `in_ports` when the user answers `answer`.
pub fn choose_input<'a, T>(in_ports: &'a [T], answer: &str) -> (r: Result<&'a T, ChooseError>)
    ensures
        match choice(in_ports@.len(), answer@) {
            Ok(index) => index < in_ports@.len() && r == Ok::<&T, ChooseError>(
                &in_ports@[index as int],
            ),
            Err(e) => r == Err::<&T, ChooseError>(e),
        },
{
    match port_index(in_ports.len(), answer) {
        Ok(index) => Ok(&in_ports[index]),
        Err(e) => Err(e),
    }
}

/// What the user reads when the only port there is has been taken; `name` is
/// that port's name.
pub open spec fn only_port_notice(name: Seq<char>) -> Seq<char> {
    "Choosing the only available input port: "@ + name + "\n"@
}

/// The lines that list the ports: each port's number, then its name. The
/// numbers count from zero.
pub open spec fn menu_rows(names: Seq<Seq<char>>) -> Seq<char>
    decreases names.len(),
{
    if names.len() == 0 {
        Seq::empty()
    } else {
        menu_rows(names.drop_last()) + decimal((names.len() - 1) as nat) + ": "@ + names.last()
            + "\n"@
    }
}

/// What the user reads when asked to choose among the ports named `names`: a
/// heading, the list of the ports, and the question, which ends the text
/// without a line break.
pub open spec fn menu(names: Seq<Seq<char>>) -> Seq<char> {
    "\nAvailable input ports:\n"@ + menu_rows(names) + "Please select input port: "@
}

/// The text that tells the user that the only port, named `name`, was taken.
pub fn only_port_text(name: &str) -> (r: String)
    ensures
        r@ == only_port_notice(name@),
{
    let mut out = String::from_str("Choosing the only available input port: ");
    out.append(name);
    out.append("\n");
    out
}

/// The text that asks the user to choose among the ports named `names`.
pub fn port_menu(names: &Vec<String>) -> (r: String)
    ensures
        r@ == menu(names.deep_view()),
{
    let ghost all = names.deep_view();
    let mut out = String::from_str("\nAvailable input ports:\n");
    let mut i: usize = 0;
    assert(all.take(0) =~= Seq::<Seq<char>>::empty());
    while i < names.len()
        invariant
            i <= names.len(),
            all == names.deep_view(),
            out@ == "\nAvailable input ports:\n"@ + menu_rows(all.take(i as int)),
        decreases names.len() - i,
    {
        append_decimal(&mut out, i as u64);
        out.append(": ");
        out.append(names[i].as_str());
        out.append("\n");
        proof {
            let upto = all.take(i + 1);
            assert(upto.drop_last() =~= all.take(i as int));
            assert(upto.last() == names@[i as int]@);
            assert(out@ =~= "\nAvailable input ports:\n"@ + menu_rows(upto));
        }
        i = i + 1;
    }
    assert(all.take(i as int) =~= all);
    out.append("Please select input port: ");
    out
}

/// A chosen port is one of the ports.
pub proof fn lemma_choice_in_range(count: nat, answer: Seq<char>)
    ensures
        choice(count, answer) matches Ok(index) ==> index < count,
{
}

/// What is chosen depends on the answer only where the user is asked.
pub proof fn lemma_choice_unasked(count: nat, a: Seq<char>, b: Seq<char>)
    requires
        !asks(count),
    ensures
        choice(count, a) == choice(count, b),
        count == 0 <==> choice(count, a) == Err::<usize, ChooseError>(ChooseError::NoPorts),
        count == 1 <==> choice(count, a) == Ok::<usize, ChooseError>(0usize),
{
}

/// The numeral of a port's number chooses that port, whatever white space
/// stands around it: every number that the menu shows can be answered.
pub proof fn lemma_numeral_chooses(count: nat, index: nat, lead: Seq<char>, tail: Seq<char>)
    requires
        index < count <= usize::MAX,
        all_space(lead),
        all_space(tail),
    ensures
        choice(count, lead + decimal(index) + tail) == Ok::<usize, ChooseError>(index as usize),
{
    lemma_decimal_value(index);
    let numeral = decimal(index);
    assert(is_digit(numeral.first()) && is_digit(numeral.last()));
    lemma_trim_around(lead, numeral, tail);
    lemma_decimal_parses(index);
}

} // verus!
