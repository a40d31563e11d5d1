//! The key rules of the `static_map!` tables that hold generated font
//! data: which literals may be keys, what key each stands for, the
//! literal text the table writes for it, and that no key appears twice.
use vstd::prelude::*;
use vstd::string::*;
use crate::text::{decimal, digit_char, digits, push_nat, push_str, same_text};

verus! {

/// A key literal as written in a table.
pub enum KeyLiteral {
    /// A string literal: its value, and its text as written (quotes and
    /// escapes included).
    Str { value: String, text: String },
    /// An integer literal: its value as decimal digits, and its type suffix
    /// (empty when there is none).
    Int { digits: String, suffix: String },
    /// A character literal: its value, and its text as written.
    Char { value: char, text: String },
    /// A boolean literal.
    Bool(bool),
    /// Any other expression.
    Other,
}

/// A table key.
#[derive(Clone, Debug)]
pub enum ParsedKey {
    Str(String),
    U32(u32),
    Char(char),
    Bool(bool),
}

/// A table key together with the literal text that the generated table
/// writes for it.
#[derive(Clone, Debug)]
pub struct Key {
    pub parsed: ParsedKey,
    pub tokens: String,
}

/// An entry of a table: its key and its value.
pub struct Entry<V> {
    pub key: Key,
    pub value: V,
}

/// Why an integer text is not a `u32`.
#[derive(Copy, Clone, Debug, PartialEq, Eq, Structural)]
pub enum IntError {
    /// The text is empty.
    Empty,
    /// A character is not a decimal digit.
    InvalidDigit,
    /// The number is larger than `u32::MAX`.
    PosOverflow,
}

/// Why a literal is not a table key.
#[derive(Copy, Clone, Debug, PartialEq, Eq, Structural)]
pub enum KeyError {
    /// An integer with a type suffix other than `u32`.
    NotU32,
    /// An integer whose digits are not a `u32`.
    Integer(IntError),
    /// An expression that is not a string, integer, character or boolean literal.
    Unsupported,
}

/// Why a table's entries are refused.
#[derive(Clone, Debug)]
pub enum EntryError {
    /// The key of the entry at `index` is not a table key.
    Key { index: usize, error: KeyError },
    /// The key of the entry at `index` equals the key of an earlier entry;
    /// `tokens` is the later key's literal text.
    Duplicate { index: usize, tokens: String },
}

/// The value of a decimal digit character, if it is one.
pub open spec fn digit_value(c: char) -> Option<int> {
    if '0' <= c && c <= '9' {
        Some(c as int - '0' as int)
    } else {
        None
    }
}

/// Reading decimal digits left to right onto `acc`: the first character
/// that is no digit, or the first digit that takes the number past
/// `u32::MAX`, ends the reading with an error.
pub open spec fn read_digits(d: Seq<char>, acc: int) -> Result<u32, IntError>
    decreases d.len(),
{
    if d.len() == 0 {
        Ok(acc as u32)
    } else {
        match digit_value(d[0]) {
            None => Err(IntError::InvalidDigit),
            Some(v) => if acc * 10 + v > u32::MAX {
                Err(IntError::PosOverflow)
            } else {
                read_digits(d.skip(1), acc * 10 + v)
            },
        }
    }
}

/// A `u32` written in decimal, as `str::parse::<u32>` reads it: an
/// optional `+`, then at least one digit.
pub open spec fn parse_u32_text(s: Seq<char>) -> Result<u32, IntError> {
    if s.len() == 0 {
        Err(IntError::Empty)
    } else if s[0] == '+' || s[0] == '-' {
        if s.len() == 1 {
            Err(IntError::InvalidDigit)
        } else if s[0] == '+' {
            read_digits(s.skip(1), 0)
        } else {
            read_digits(s, 0)
        }
    } else {
        read_digits(s, 0)
    }
}

fn digit_of(c: char) -> (r: Option<u64>)
    ensures
        r matches Some(v) ==> digit_value(c) == Some(v as int),
        r is None ==> digit_value(c) is None,
{
    if '0' <= c && c <= '9' {
        Some((c as u32 - '0' as u32) as u64)
    } else {
        None
    }
}

/// Reads a `u32` written in decimal.
pub fn parse_u32(s: &str) -> (r: Result<u32, IntError>)
    ensures
        r == parse_u32_text(s@),
{
    let n = s.unicode_len();
    if n == 0 {
        return Err(IntError::Empty);
    }
    let first = s.get_char(0);
    let mut i: usize = 0;
    if first == '+' || first == '-' {
        if n == 1 {
            return Err(IntError::InvalidDigit);
        }
        if first == '+' {
            i = 1;
        }
    }
    let mut acc: u64 = 0;
    assert(s@.skip(0) =~= s@);
    while i < n
        invariant
            n == s@.len(),
            i <= n,
            acc <= u32::MAX,
            read_digits(s@.skip(i as int), acc as int) == parse_u32_text(s@),
        decreases n - i,
    {
        let c = s.get_char(i);
        assert(s@.skip(i as int)[0] == c);
        assert(s@.skip(i as int).skip(1) =~= s@.skip(i + 1));
        match digit_of(c) {
            None => {
                return Err(IntError::InvalidDigit);
            },
            Some(v) => {
                if acc * 10 + v > 0xffff_ffff {
                    return Err(IntError::PosOverflow);
                }
                acc = acc * 10 + v;
            },
        }
        i = i + 1;
    }
    assert(s@.skip(i as int).len() == 0);
    Ok(acc as u32)
}

/// A key as mathematics.
pub enum ParsedKeyModel {
    Str(Seq<char>),
    U32(u32),
    Char(char),
    Bool(bool),
}

/// A key with its literal text, as mathematics.
pub struct KeyModel {
    pub parsed: ParsedKeyModel,
    pub tokens: Seq<char>,
}

impl View for ParsedKey {
    type V = ParsedKeyModel;

    open spec fn view(&self) -> ParsedKeyModel {
        match self {
            ParsedKey::Str(s) => ParsedKeyModel::Str(s@),
            ParsedKey::U32(v) => ParsedKeyModel::U32(*v),
            ParsedKey::Char(c) => ParsedKeyModel::Char(*c),
            ParsedKey::Bool(b) => ParsedKeyModel::Bool(*b),
        }
    }
}

impl View for Key {
    type V = KeyModel;

    open spec fn view(&self) -> KeyModel {
        KeyModel { parsed: self.parsed@, tokens: self.tokens@ }
    }
}

/// The text of a boolean literal.
pub open spec fn bool_text(b: bool) -> Seq<char> {
    if b {
        "true"@
    } else {
        "false"@
    }
}

/// The key a literal stands for, with the text written for it: strings,
/// characters and booleans as they are written; integers, when unsuffixed
/// or suffixed `u32` and within `u32`, as their decimal value suffixed
/// `u32`.
pub open spec fn key_of(lit: KeyLiteral) -> Result<KeyModel, KeyError> {
    match lit {
        KeyLiteral::Str { value, text } => Ok(
            KeyModel { parsed: ParsedKeyModel::Str(value@), tokens: text@ },
        ),
        KeyLiteral::Int { digits, suffix } => if suffix@.len() != 0 && suffix@ != "u32"@ {
            Err(KeyError::NotU32)
        } else {
            match parse_u32_text(digits@) {
                Ok(v) => Ok(
                    KeyModel { parsed: ParsedKeyModel::U32(v), tokens: decimal(v as int) + "u32"@ },
                ),
                Err(e) => Err(KeyError::Integer(e)),
            }
        },
        KeyLiteral::Char { value, text } => Ok(
            KeyModel { parsed: ParsedKeyModel::Char(value), tokens: text@ },
        ),
        KeyLiteral::Bool(b) => Ok(KeyModel { parsed: ParsedKeyModel::Bool(b), tokens: bool_text(b) }),
        KeyLiteral::Other => Err(KeyError::Unsupported),
    }
}

/// The key a literal stands for, with the literal text that the table
/// writes for it.
pub fn parse_key(lit: KeyLiteral) -> (r: Result<Key, KeyError>)
    ensures
        r matches Ok(k) ==> key_of(lit) == Ok::<KeyModel, KeyError>(k@),
        r matches Err(e) ==> key_of(lit) == Err::<KeyModel, KeyError>(e),
{
    match lit {
        KeyLiteral::Str { value, text } => Ok(Key { parsed: ParsedKey::Str(value), tokens: text }),
        KeyLiteral::Int { digits, suffix } => {
            if suffix.as_str().unicode_len() != 0 && !same_text(suffix.as_str(), "u32") {
                return Err(KeyError::NotU32);
            }
            match parse_u32(digits.as_str()) {
                Ok(v) => {
                    let mut tokens = String::new();
                    push_nat(&mut tokens, v as u64);
                    push_str(&mut tokens, "u32");
                    assert(tokens@ =~= decimal(v as int) + "u32"@);
                    Ok(Key { parsed: ParsedKey::U32(v), tokens })
                },
                Err(e) => Err(KeyError::Integer(e)),
            }
        },
        KeyLiteral::Char { value, text } => Ok(Key { parsed: ParsedKey::Char(value), tokens: text }),
        KeyLiteral::Bool(b) => {
            let tokens = if b {
                String::from_str("true")
            } else {
                String::from_str("false")
            };
            Ok(Key { parsed: ParsedKey::Bool(b), tokens })
        },
        KeyLiteral::Other => Err(KeyError::Unsupported),
    }
}

/// The text that reports a key error.
pub open spec fn key_error_text(e: KeyError) -> Seq<char> {
    match e {
        KeyError::NotU32 => "ReX static_map compatibility supports only u32 integer keys"@,
        KeyError::Integer(IntError::Empty) => "cannot parse integer from empty string"@,
        KeyError::Integer(IntError::InvalidDigit) => "invalid digit found in string"@,
        KeyError::Integer(IntError::PosOverflow) => "number too large to fit in target type"@,
        KeyError::Unsupported => "unsupported ReX static_map key expression"@,
    }
}

impl KeyError {
    /// The text that reports the error.
    pub fn message(&self) -> (m: String)
        ensures
            m@ == key_error_text(*self),
    {
        match self {
            KeyError::NotU32 => String::from_str("ReX static_map compatibility supports only u32 integer keys"),
            KeyError::Integer(IntError::Empty) => String::from_str("cannot parse integer from empty string"),
            KeyError::Integer(IntError::InvalidDigit) => String::from_str("invalid digit found in string"),
            KeyError::Integer(IntError::PosOverflow) => String::from_str("number too large to fit in target type"),
            KeyError::Unsupported => String::from_str("unsupported ReX static_map key expression"),
        }
    }
}

impl EntryError {
    /// The text that reports the error.
    pub fn message(&self) -> (m: String)
        ensures
            m@ == match *self {
                EntryError::Key { error, .. } => key_error_text(error),
                EntryError::Duplicate { .. } => "duplicate static_map key"@,
            },
    {
        match self {
            EntryError::Key { error, .. } => error.message(),
            EntryError::Duplicate { .. } => String::from_str("duplicate static_map key"),
        }
    }
}

/// Whether the key at `j` already occurs before it.
pub open spec fn repeats_earlier(keys: Seq<ParsedKeyModel>, j: int) -> bool {
    exists|i: int| #![trigger keys[i]] 0 <= i < j && keys[i] == keys[j]
}

/// The keys of a table's entries, in order.
pub open spec fn entry_keys<V>(entries: Seq<Entry<V>>) -> Seq<ParsedKeyModel> {
    entries.map_values(|e: Entry<V>| e.key.parsed@)
}

/// The keys that literals stand for, in order (meaningful where each is a
/// table key).
pub open spec fn literal_keys<V>(items: Seq<(KeyLiteral, V)>) -> Seq<ParsedKeyModel> {
    items.map_values(|it: (KeyLiteral, V)| key_of(it.0)->Ok_0.parsed)
}

fn same_key(a: &ParsedKey, b: &ParsedKey) -> (r: bool)
    ensures
        r == (a@ == b@),
{
    match (a, b) {
        (ParsedKey::Str(x), ParsedKey::Str(y)) => same_text(x.as_str(), y.as_str()),
        (ParsedKey::U32(x), ParsedKey::U32(y)) => *x == *y,
        (ParsedKey::Char(x), ParsedKey::Char(y)) => *x == *y,
        (ParsedKey::Bool(x), ParsedKey::Bool(y)) => *x == *y,
        _ => false,
    }
}

/// The index of the first entry whose key repeats an earlier one, if any;
/// such a key is reported as a duplicate.
pub fn first_duplicate<V>(entries: &[Entry<V>]) -> (r: Option<usize>)
    ensures
        r matches Some(j) ==> j < entries@.len() && repeats_earlier(entry_keys(entries@), j as int)
            && forall|k: int| 0 <= k < j ==> !#[trigger] repeats_earlier(entry_keys(entries@), k),
        r is None ==> forall|k: int|
            0 <= k < entries@.len() ==> !#[trigger] repeats_earlier(entry_keys(entries@), k),
{
    let ghost keys = entry_keys(entries@);
    let mut j: usize = 0;
    while j < entries.len()
        invariant
            keys == entry_keys(entries@),
            j <= entries@.len(),
            forall|k: int| 0 <= k < j ==> !#[trigger] repeats_earlier(keys, k),
        decreases entries.len() - j,
    {
        let mut i: usize = 0;
        while i < j
            invariant
                keys == entry_keys(entries@),
                j < entries@.len(),
                i <= j,
                forall|k: int| 0 <= k < j ==> !#[trigger] repeats_earlier(keys, k),
                forall|h: int| 0 <= h < i ==> keys[h] != keys[j as int],
            decreases j - i,
        {
            if same_key(&entries[i].key.parsed, &entries[j].key.parsed) {
                assert(keys[i as int] == keys[j as int]);
                assert(repeats_earlier(keys, j as int));
                return Some(j);
            }
            i = i + 1;
        }
        assert(!repeats_earlier(keys, j as int));
        j = j + 1;
    }
    None
}

/// The entries of a table, in the order written: the first literal that
/// is no table key is refused with its error; else the first key that
/// repeats an earlier one is refused as a duplicate, with its literal
/// text; else each entry holds the key its literal stands for and its
/// value.
pub fn parse_entries<V>(items: Vec<(KeyLiteral, V)>) -> (r: Result<Vec<Entry<V>>, EntryError>)
    ensures
        match r {
            Ok(entries) => {
                &&& entries@.len() == items@.len()
                &&& forall|i: int|
                    0 <= i < items@.len() ==> key_of(#[trigger] items@[i].0) == Ok::<
                        KeyModel,
                        KeyError,
                    >(entries@[i].key@) && entries@[i].value == items@[i].1
                &&& forall|k: int|
                    0 <= k < items@.len() ==> !#[trigger] repeats_earlier(literal_keys(items@), k)
            },
            Err(EntryError::Key { index, error }) => {
                &&& index < items@.len()
                &&& key_of(items@[index as int].0) == Err::<KeyModel, KeyError>(error)
                &&& forall|i: int| 0 <= i < index ==> key_of(#[trigger] items@[i].0) is Ok
            },
            Err(EntryError::Duplicate { index, tokens }) => {
                &&& index < items@.len()
                &&& forall|i: int| 0 <= i < items@.len() ==> key_of(#[trigger] items@[i].0) is Ok
                &&& repeats_earlier(literal_keys(items@), index as int)
                &&& forall|k: int|
                    0 <= k < index ==> !#[trigger] repeats_earlier(literal_keys(items@), k)
                &&& tokens@ == key_of(items@[index as int].0)->Ok_0.tokens
            },
        },
{
    let ghost orig = items@;
    let mut rest = items;
    let mut entries: Vec<Entry<V>> = Vec::new();
    let mut index: usize = 0;
    while rest.len() > 0
        invariant
            orig == items@,
            index + rest@.len() == orig.len(),
            rest@ == orig.skip(index as int),
            entries@.len() == index,
            forall|i: int|
                0 <= i < index ==> key_of(#[trigger] orig[i].0) == Ok::<KeyModel, KeyError>(
                    entries@[i].key@,
                ) && entries@[i].value == orig[i].1,
        decreases rest@.len(),
    {
        let (lit, value) = rest.remove(0);
        assert(orig[index as int] == (lit, value));
        match parse_key(lit) {
            Ok(key) => {
                entries.push(Entry { key, value });
            },
            Err(error) => {
                assert forall|i: int| 0 <= i < index implies key_of(#[trigger] items@[i].0) is Ok by {
                    assert(key_of(orig[i].0) == Ok::<KeyModel, KeyError>(entries@[i].key@));
                }
                return Err(EntryError::Key { index, error });
            },
        }
        assert(rest@ =~= orig.skip(index + 1));
        index = entries.len();
    }
    assert(entry_keys(entries@) =~= literal_keys(orig)) by {
        assert forall|i: int| 0 <= i < orig.len() implies entry_keys(entries@)[i] == literal_keys(
            orig,
        )[i] by {
            assert(key_of(orig[i].0) == Ok::<KeyModel, KeyError>(entries@[i].key@));
        }
    }
    match first_duplicate(entries.as_slice()) {
        Some(j) => {
            let tokens = entries[j].key.tokens.clone();
            assert(key_of(orig[j as int].0) == Ok::<KeyModel, KeyError>(entries@[j as int].key@));
            Err(EntryError::Duplicate { index: j, tokens })
        },
        None => Ok(entries),
    }
}


proof fn lemma_digit_char_value(d: int)
    requires
        0 <= d < 10,
    ensures
        digit_value(digit_char(d)) == Some(d),
{
}

proof fn lemma_read_push(a: Seq<char>, c: char, acc: int, v: u32, d: int)
    requires
        0 <= acc <= u32::MAX,
        read_digits(a, acc) == Ok::<u32, IntError>(v),
        digit_value(c) == Some(d),
        v * 10 + d <= u32::MAX,
    ensures
        read_digits(a.push(c), acc) == Ok::<u32, IntError>((v * 10 + d) as u32),
    decreases a.len(),
{
    if a.len() == 0 {
        assert(v == acc);
        assert(a.push(c)[0] == c);
        assert(a.push(c).skip(1) =~= Seq::<char>::empty());
        assert(read_digits(Seq::<char>::empty(), acc * 10 + d) == Ok::<u32, IntError>((acc * 10 + d) as u32));
    } else {
        let e = digit_value(a[0])->0;
        assert(read_digits(a, acc) == read_digits(a.skip(1), acc * 10 + e));
        assert(a.push(c)[0] == a[0]);
        assert(a.push(c).skip(1) =~= a.skip(1).push(c));
        lemma_read_push(a.skip(1), c, acc * 10 + e, v, d);
        assert(read_digits(a.push(c), acc) == read_digits(a.push(c).skip(1), acc * 10 + e));
    }
}

proof fn lemma_read_digits_of(n: nat)
    requires
        n <= u32::MAX,
    ensures
        read_digits(digits(n), 0) == Ok::<u32, IntError>(n as u32),
        digit_value(digits(n)[0]) is Some,
        digits(n).len() >= 1,
    decreases n,
{
    if n < 10 {
        lemma_digit_char_value(n as int);
        assert(seq![digit_char(n as int)].skip(1) =~= Seq::<char>::empty());
        assert(read_digits(Seq::<char>::empty(), n as int) == Ok::<u32, IntError>(n as u32));
        assert(read_digits(seq![digit_char(n as int)], 0) == read_digits(Seq::<char>::empty(), n as int));
    } else {
        lemma_read_digits_of(n / 10);
        lemma_digit_char_value((n % 10) as int);
        lemma_read_push(digits(n / 10), digit_char((n % 10) as int), 0, (n / 10) as u32, (n % 10) as int);
    }
}

/// Reading back the decimal text of a `u32` gives that `u32`: the text
/// that numbers are written in and the text that integer keys are read
/// from agree.
pub proof fn law_decimal_text_reads_back(n: u32)
    ensures
        parse_u32_text(decimal(n as int)) == Ok::<u32, IntError>(n),
{
    lemma_read_digits_of(n as nat);
    let d = digits(n as nat);
    assert(d[0] != '+' && d[0] != '-');
}

/// The literal that a table writes for an integer key stands for the same
/// key and is written the same way again: rewriting integer keys as
/// `u32` literals is stable.
pub proof fn law_integer_key_rewrite_is_stable(lit: KeyLiteral, written: KeyLiteral)
    requires
        key_of(lit) matches Ok(k) && k.parsed matches ParsedKeyModel::U32(v) && written matches KeyLiteral::Int {
            digits,
            suffix,
        } && digits@ == decimal(v as int) && suffix@ == "u32"@,
    ensures
        key_of(written) == key_of(lit),
{
    let v = key_of(lit)->Ok_0.parsed->U32_0;
    law_decimal_text_reads_back(v);
}

} // verus!
