//! The command surface: a line of text is read as a request to the ledger.
//!
//! A line is a run of words separated by ASCII white space. The first word
//! names the command, the following words are its arguments by position:
//!
//! ```text
//! create-account <id> <start_balance>
//! transfer <from_id> <to_id> <amount>
//! balance <id>
//! ```
//!
//! An id is a decimal numeral with an optional `+` in front; an amount is a
//! decimal numeral with an optional `+` or `-` in front. Words after the last
//! argument are ignored.

use crate::ledger::{Amount, Balance, LedgerError, LedgerState, TransactionTypes, Transactor};
use vstd::prelude::*;
use vstd::slice::slice_subrange;
use vstd::string::StringSliceAdditionalSpecFns;

verus! {

/// The commands that a line can name.
#[derive(Debug, Clone, Copy, PartialEq, Eq)]
pub enum CommandName {
    CreateAccount,
    Transfer,
    Balance,
}

/// A well-formed request.
#[derive(Debug, Clone, Copy, PartialEq, Eq)]
pub enum Command {
    CreateAccount { id: u32, start_balance: Amount },
    Transfer { from_id: u32, to_id: u32, amount: Amount },
    Balance { id: u32 },
}

/// Why a line is no request.
#[derive(Debug, Clone, Copy, PartialEq, Eq)]
pub enum ParseError {
    /// The line names this command, but an argument is missing or malformed.
    InvalidArguments(CommandName),
    /// The first word is not the name of a command.
    InvalidCommand,
}

/// What there is to tell whoever sent a line.
#[derive(Debug, Clone, Copy, PartialEq, Eq)]
pub enum Reply {
    /// Nothing: the line was blank, the operation was carried out, or the
    /// balance of an account that is not there was asked for.
    Nothing,
    /// The balance that was asked for.
    Balance { id: u32, balance: Balance },
    /// The ledger turned the operation down.
    Rejected(LedgerError),
    /// The line was no request.
    Unreadable(ParseError),
    /// The ledger would accept the operation but has given out its last
    /// sequence number.
    Exhausted,
}

impl CommandName {
    /// The word that names the command.
    pub fn word(&self) -> (word: &'static str)
        ensures
            word.spec_bytes() == keyword(*self),
    {
        match self {
            CommandName::CreateAccount => "create-account",
            CommandName::Transfer => "transfer",
            CommandName::Balance => "balance",
        }
    }
}

impl Command {
    /// The operation on the ledger that the command asks for, if it asks for
    /// one.
    pub open spec fn operation(self) -> Option<TransactionTypes> {
        match self {
            Command::CreateAccount { id, start_balance } => Some(
                TransactionTypes::CreateAccount { id, start_balance },
            ),
            Command::Transfer { from_id, to_id, amount } => Some(
                TransactionTypes::Transfer { from_id, to_id, amount },
            ),
            Command::Balance { id } => None,
        }
    }

    /// The operation on the ledger that the command asks for, if it asks for
    /// one.
    pub fn to_operation(&self) -> (op: Option<TransactionTypes>)
        ensures
            op == self.operation(),
    {
        match *self {
            Command::CreateAccount { id, start_balance } => Some(
                TransactionTypes::CreateAccount { id, start_balance },
            ),
            Command::Transfer { from_id, to_id, amount } => Some(
                TransactionTypes::Transfer { from_id, to_id, amount },
            ),
            Command::Balance { id } => None,
        }
    }
}

/// The reply of a ledger in state `s` to a command.
pub open spec fn reply_to(s: LedgerState, command: Command) -> Reply {
    match command.operation() {
        Some(op) => {
            if !s.has_room(op) {
                Reply::Exhausted
            } else {
                match s.check(op) {
                    Ok(_) => Reply::Nothing,
                    Err(e) => Reply::Rejected(e),
                }
            }
        },
        None => {
            if s.has_account(command->Balance_id) {
                Reply::Balance {
                    id: command->Balance_id,
                    balance: s.balances[command->Balance_id] as i128,
                }
            } else {
                Reply::Nothing
            }
        },
    }
}

/// The state of a ledger after a command, if it was in state `s` before.
pub open spec fn state_after(s: LedgerState, command: Command) -> LedgerState {
    match command.operation() {
        Some(op) => if s.has_room(op) {
            s.apply(op)
        } else {
            s
        },
        None => s,
    }
}

/// The reply of a ledger in state `s` to a line that was read as `request`.
pub open spec fn reply_to_request(
    s: LedgerState,
    request: Result<Option<Command>, ParseError>,
) -> Reply {
    match request {
        Ok(Some(command)) => reply_to(s, command),
        Ok(None) => Reply::Nothing,
        Err(e) => Reply::Unreadable(e),
    }
}

/// The state of a ledger after a line that was read as `request`, if it was
/// in state `s` before.
pub open spec fn state_after_request(
    s: LedgerState,
    request: Result<Option<Command>, ParseError>,
) -> LedgerState {
    match request {
        Ok(Some(command)) => state_after(s, command),
        _ => s,
    }
}

/// The bytes that separate words: space, tab, line feed, form feed, carriage return.
pub open spec fn is_space(b: u8) -> bool {
    b == 0x20 || b == 0x09 || b == 0x0a || b == 0x0c || b == 0x0d
}

/// The first index at or after `from` that holds white space, or the length
/// of `s` if there is none.
pub open spec fn word_end(s: Seq<u8>, from: int) -> int
    decreases s.len() - from,
{
    if from < 0 || from >= s.len() || is_space(s[from]) {
        from
    } else {
        word_end(s, from + 1)
    }
}

/// The words of `s` that start at or after `from`, in order. A word is a
/// longest run of bytes that are not white space.
pub open spec fn words_from(s: Seq<u8>, from: int) -> Seq<Seq<u8>>
    decreases s.len() - from,
    via words_from_terminates
{
    if from < 0 || from >= s.len() {
        Seq::empty()
    } else if is_space(s[from]) {
        words_from(s, from + 1)
    } else {
        seq![s.subrange(from, word_end(s, from))] + words_from(s, word_end(s, from))
    }
}

#[via_fn]
proof fn words_from_terminates(s: Seq<u8>, from: int) {
    if 0 <= from < s.len() && !is_space(s[from]) {
        lemma_word_end_bounds(s, from);
    }
}

/// The words of a line.
pub open spec fn words(s: Seq<u8>) -> Seq<Seq<u8>> {
    words_from(s, 0)
}

/// A word ends no earlier than it starts, within the line, and is not empty
/// where it starts on a byte that is not white space.
pub proof fn lemma_word_end_bounds(s: Seq<u8>, from: int)
    requires
        0 <= from <= s.len(),
    ensures
        from <= word_end(s, from) <= s.len(),
        from < s.len() && !is_space(s[from]) ==> from < word_end(s, from),
    decreases s.len() - from,
{
    if from < s.len() && !is_space(s[from]) {
        lemma_word_end_bounds(s, from + 1);
    }
}

/// The ASCII digits.
pub open spec fn is_digit(b: u8) -> bool {
    0x30 <= b <= 0x39
}

/// A numeral is one digit or more.
pub open spec fn is_numeral(s: Seq<u8>) -> bool {
    s.len() > 0 && forall|i: int| 0 <= i < s.len() ==> is_digit(#[trigger] s[i])
}

/// The number that a run of digits writes in base ten.
pub open spec fn numeral_value(s: Seq<u8>) -> nat
    decreases s.len(),
{
    if s.len() == 0 {
        0
    } else {
        (10 * numeral_value(s.drop_last()) + (s.last() - 0x30)) as nat
    }
}

/// The id that a word writes: a numeral, after an optional `+`, whose value
/// fits 32 bits.
pub open spec fn id_of(word: Seq<u8>) -> Option<u32> {
    let digits = if word.len() > 0 && word[0] == 0x2b {
        word.skip(1)
    } else {
        word
    };
    if is_numeral(digits) && numeral_value(digits) <= u32::MAX {
        Some(numeral_value(digits) as u32)
    } else {
        None
    }
}

/// The amount that a word writes: a numeral, after an optional `+` or `-`,
/// whose signed value fits 64 bits.
pub open spec fn amount_of(word: Seq<u8>) -> Option<Amount> {
    let signed = word.len() > 0 && (word[0] == 0x2b || word[0] == 0x2d);
    let digits = if signed {
        word.skip(1)
    } else {
        word
    };
    let value = if signed && word[0] == 0x2d {
        -(numeral_value(digits) as int)
    } else {
        numeral_value(digits) as int
    };
    if is_numeral(digits) && i64::MIN <= value <= i64::MAX {
        Some(value as i64)
    } else {
        None
    }
}

/// The word that names a command.
pub open spec fn keyword(name: CommandName) -> Seq<u8> {
    match name {
        CommandName::CreateAccount => "create-account".spec_bytes(),
        CommandName::Transfer => "transfer".spec_bytes(),
        CommandName::Balance => "balance".spec_bytes(),
    }
}

/// The words after the first.
pub open spec fn rest(w: Seq<Seq<u8>>) -> Seq<Seq<u8>> {
    if w.len() > 0 {
        w.skip(1)
    } else {
        w
    }
}

/// The id written at position `i` of `args`, if there is a word and it writes one.
pub open spec fn id_at(args: Seq<Seq<u8>>, i: int) -> Option<u32> {
    if 0 <= i < args.len() {
        id_of(args[i])
    } else {
        None
    }
}

/// The amount written at position `i` of `args`, if there is a word and it writes one.
pub open spec fn amount_at(args: Seq<Seq<u8>>, i: int) -> Option<Amount> {
    if 0 <= i < args.len() {
        amount_of(args[i])
    } else {
        None
    }
}

/// The request that the named command makes with the words `args`.
pub open spec fn command_of(name: CommandName, args: Seq<Seq<u8>>) -> Result<
    Option<Command>,
    ParseError,
> {
    match name {
        CommandName::CreateAccount => match (id_at(args, 0), amount_at(args, 1)) {
            (Some(id), Some(start_balance)) => Ok(
                Some(Command::CreateAccount { id, start_balance }),
            ),
            _ => Err(ParseError::InvalidArguments(name)),
        },
        CommandName::Transfer => match (id_at(args, 0), id_at(args, 1), amount_at(args, 2)) {
            (Some(from_id), Some(to_id), Some(amount)) => Ok(
                Some(Command::Transfer { from_id, to_id, amount }),
            ),
            _ => Err(ParseError::InvalidArguments(name)),
        },
        CommandName::Balance => match id_at(args, 0) {
            Some(id) => Ok(Some(Command::Balance { id })),
            None => Err(ParseError::InvalidArguments(name)),
        },
    }
}

/// What a line asks for: nothing where it holds no word, else the request of
/// the command that its first word names.
pub open spec fn interpret(line: Seq<u8>) -> Result<Option<Command>, ParseError> {
    let w = words(line);
    if w.len() == 0 {
        Ok(None)
    } else if w[0] == keyword(CommandName::CreateAccount) {
        command_of(CommandName::CreateAccount, w.skip(1))
    } else if w[0] == keyword(CommandName::Transfer) {
        command_of(CommandName::Transfer, w.skip(1))
    } else if w[0] == keyword(CommandName::Balance) {
        command_of(CommandName::Balance, w.skip(1))
    } else {
        Err(ParseError::InvalidCommand)
    }
}

/// The value of a numeral is no less than that of the digits it starts with.
proof fn lemma_numeral_value_prefix(s: Seq<u8>, n: int)
    requires
        0 <= n <= s.len(),
        forall|i: int| 0 <= i < s.len() ==> is_digit(#[trigger] s[i]),
    ensures
        numeral_value(s.take(n)) <= numeral_value(s),
    decreases s.len(),
{
    if n == s.len() {
        assert(s.take(n) =~= s);
    } else {
        lemma_numeral_value_prefix(s.drop_last(), n);
        assert(s.drop_last().take(n) =~= s.take(n));
    }
}

fn is_space_byte(b: u8) -> (r: bool)
    ensures
        r == is_space(b),
{
    b == 0x20 || b == 0x09 || b == 0x0a || b == 0x0c || b == 0x0d
}

/// Reads a run of digits as a number no greater than `limit`.
fn parse_numeral(digits: &[u8], limit: u64) -> (value: Option<u64>)
    ensures
        value == if is_numeral(digits@) && numeral_value(digits@) <= limit {
            Some(numeral_value(digits@) as u64)
        } else {
            None::<u64>
        },
{
    let n: usize = digits.len();
    if n == 0 {
        return None;
    }
    let mut acc: u64 = 0;
    let mut i: usize = 0;
    while i < n
        invariant
            n == digits@.len(),
            i <= n,
            forall|j: int| 0 <= j < i ==> is_digit(#[trigger] digits@[j]),
            acc == numeral_value(digits@.take(i as int)),
            acc <= limit,
        decreases n - i,
    {
        let b: u8 = digits[i];
        if b < 0x30 || b > 0x39 {
            return None;
        }
        let next: u128 = 10 * (acc as u128) + ((b - 0x30) as u128);
        proof {
            assert(digits@.take(i + 1).drop_last() =~= digits@.take(i as int));
            assert(next == numeral_value(digits@.take(i + 1)));
        }
        if next > limit as u128 {
            proof {
                if is_numeral(digits@) {
                    lemma_numeral_value_prefix(digits@, i + 1);
                }
            }
            return None;
        }
        acc = next as u64;
        i = i + 1;
    }
    proof {
        assert(digits@.take(n as int) =~= digits@);
    }
    Some(acc)
}

/// Reads a word as an account id.
pub fn parse_id(word: &[u8]) -> (id: Option<u32>)
    ensures
        id == id_of(word@),
{
    let n: usize = word.len();
    let digits = if n > 0 && word[0] == 0x2b {
        slice_subrange(word, 1, n)
    } else {
        word
    };
    match parse_numeral(digits, 0xffff_ffff) {
        Some(value) => Some(value as u32),
        None => None,
    }
}

/// Reads a word as an amount.
pub fn parse_amount(word: &[u8]) -> (amount: Option<Amount>)
    ensures
        amount == amount_of(word@),
{
    let n: usize = word.len();
    let signed = n > 0 && (word[0] == 0x2b || word[0] == 0x2d);
    if signed && word[0] == 0x2d {
        match parse_numeral(slice_subrange(word, 1, n), 0x8000_0000_0000_0000) {
            Some(value) => {
                if value == 0x8000_0000_0000_0000 {
                    Some(i64::MIN)
                } else {
                    Some(-(value as i64))
                }
            },
            None => None,
        }
    } else {
        let digits = if signed {
            slice_subrange(word, 1, n)
        } else {
            word
        };
        match parse_numeral(digits, 0x7fff_ffff_ffff_ffff) {
            Some(value) => Some(value as i64),
            None => None,
        }
    }
}

/// Finds the first word that starts at or after `from`, as the indices
/// where it starts and ends.
fn next_word(line: &[u8], from: usize) -> (span: Option<(usize, usize)>)
    requires
        from <= line@.len(),
    ensures
        match span {
            None => words_from(line@, from as int).len() == 0,
            Some((start, end)) => {
                &&& from <= start < end <= line@.len()
                &&& words_from(line@, from as int) == seq![
                    line@.subrange(start as int, end as int),
                ] + words_from(line@, end as int)
            },
        },
{
    let n: usize = line.len();
    let mut start: usize = from;
    while start < n && is_space_byte(line[start])
        invariant
            n == line@.len(),
            from <= start <= n,
            words_from(line@, from as int) == words_from(line@, start as int),
        decreases n - start,
    {
        start = start + 1;
    }
    if start >= n {
        return None;
    }
    let mut end: usize = start + 1;
    while end < n && !is_space_byte(line[end])
        invariant
            n == line@.len(),
            start < end <= n,
            !is_space(line@[start as int]),
            word_end(line@, start as int) == word_end(line@, end as int),
        decreases n - end,
    {
        end = end + 1;
    }
    Some((start, end))
}

/// Reads the first word at or after `from` as an id, and says where the
/// words after it start.
fn read_id(line: &[u8], from: usize) -> (r: (Option<u32>, usize))
    requires
        from <= line@.len(),
    ensures
        r.0 == id_at(words_from(line@, from as int), 0),
        from <= r.1 <= line@.len(),
        words_from(line@, r.1 as int) == rest(words_from(line@, from as int)),
{
    match next_word(line, from) {
        None => (None, line.len()),
        Some((start, end)) => {
            assert(words_from(line@, from as int).skip(1) =~= words_from(line@, end as int));
            (parse_id(slice_subrange(line, start, end)), end)
        },
    }
}

/// Reads the first word at or after `from` as an amount.
fn read_amount(line: &[u8], from: usize) -> (amount: Option<Amount>)
    requires
        from <= line@.len(),
    ensures
        amount == amount_at(words_from(line@, from as int), 0),
{
    match next_word(line, from) {
        None => None,
        Some((start, end)) => parse_amount(slice_subrange(line, start, end)),
    }
}

/// Reads the words at or after `from` as the arguments of the named command.
fn read_arguments(name: CommandName, line: &[u8], from: usize) -> (request: Result<
    Option<Command>,
    ParseError,
>)
    requires
        from <= line@.len(),
    ensures
        request == command_of(name, words_from(line@, from as int)),
{
    match name {
        CommandName::CreateAccount => {
            let (id, after_id) = read_id(line, from);
            let start_balance = read_amount(line, after_id);
            match (id, start_balance) {
                (Some(id), Some(start_balance)) => Ok(
                    Some(Command::CreateAccount { id, start_balance }),
                ),
                _ => Err(ParseError::InvalidArguments(name)),
            }
        },
        CommandName::Transfer => {
            let (from_id, after_from) = read_id(line, from);
            let (to_id, after_to) = read_id(line, after_from);
            let amount = read_amount(line, after_to);
            match (from_id, to_id, amount) {
                (Some(from_id), Some(to_id), Some(amount)) => Ok(
                    Some(Command::Transfer { from_id, to_id, amount }),
                ),
                _ => Err(ParseError::InvalidArguments(name)),
            }
        },
        CommandName::Balance => {
            let (id, _) = read_id(line, from);
            match id {
                Some(id) => Ok(Some(Command::Balance { id })),
                None => Err(ParseError::InvalidArguments(name)),
            }
        },
    }
}

/// Whether two runs of bytes are the same.
fn same_bytes(a: &[u8], b: &[u8]) -> (same: bool)
    ensures
        same == (a@ == b@),
{
    let n: usize = a.len();
    if n != b.len() {
        return false;
    }
    let mut i: usize = 0;
    while i < n
        invariant
            n == a@.len(),
            n == b@.len(),
            i <= n,
            forall|j: int| 0 <= j < i ==> a@[j] == b@[j],
        decreases n - i,
    {
        if a[i] != b[i] {
            return false;
        }
        i = i + 1;
    }
    assert(a@ =~= b@);
    true
}

/// Reads a line as a request: `Ok(None)` for a line without a word, the
/// command for a line that names one with well-formed arguments, and the
/// error that says why a line is neither.
pub fn parse_command(line: &str) -> (request: Result<Option<Command>, ParseError>)
    ensures
        request == interpret(line.spec_bytes()),
{
    let bytes = line.as_bytes();
    match next_word(bytes, 0) {
        None => Ok(None),
        Some((start, end)) => {
            let word = slice_subrange(bytes, start, end);
            assert(words(bytes@).skip(1) =~= words_from(bytes@, end as int));
            if same_bytes(word, CommandName::CreateAccount.word().as_bytes()) {
                read_arguments(CommandName::CreateAccount, bytes, end)
            } else if same_bytes(word, CommandName::Transfer.word().as_bytes()) {
                read_arguments(CommandName::Transfer, bytes, end)
            } else if same_bytes(word, CommandName::Balance.word().as_bytes()) {
                read_arguments(CommandName::Balance, bytes, end)
            } else {
                Err(ParseError::InvalidCommand)
            }
        },
    }
}

/// Carries out a command on the ledger and says what there is to tell.
pub fn execute(transactor: &mut Transactor, command: Command) -> (reply: Reply)
    requires
        old(transactor).wf(),
    ensures
        final(transactor).wf(),
        reply == reply_to(old(transactor)@, command),
        final(transactor)@ == state_after(old(transactor)@, command),
{
    match command.to_operation() {
        Some(op) => match transactor.try_transact(op) {
            Some(Ok(_)) => Reply::Nothing,
            Some(Err(e)) => Reply::Rejected(e),
            None => Reply::Exhausted,
        },
        None => match command {
            Command::Balance { id } => match transactor.balance(id) {
                Ok(balance) => Reply::Balance { id, balance },
                Err(_) => Reply::Nothing,
            },
            _ => Reply::Nothing,
        },
    }
}

/// Reads a line, carries out the command that it holds, if any, and says
/// what there is to tell.
pub fn handle_line(transactor: &mut Transactor, line: &str) -> (reply: Reply)
    requires
        old(transactor).wf(),
    ensures
        final(transactor).wf(),
        reply == reply_to_request(old(transactor)@, interpret(line.spec_bytes())),
        final(transactor)@ == state_after_request(old(transactor)@, interpret(line.spec_bytes())),
{
    match parse_command(line) {
        Ok(Some(command)) => execute(transactor, command),
        Ok(None) => Reply::Nothing,
        Err(e) => Reply::Unreadable(e),
    }
}

} // verus!
