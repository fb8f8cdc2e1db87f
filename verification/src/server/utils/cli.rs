//! Command-line arguments: grouping raw words into named arguments and
//! checking how many values each argument carries.
use vstd::prelude::*;

verus! {

/// A named argument and the values that followed its name.
#[derive(Debug, Clone, PartialEq)]
pub struct CliArg {
    pub name: String,
    pub values: Vec<String>,
}

/// The model of an argument: its name and its values.
pub type ArgView = (Seq<char>, Seq<Seq<char>>);

impl CliArg {
    pub open spec fn spec_view(&self) -> ArgView {
        (self.name@, self.values.deep_view())
    }

    /// A copy with the same name and values.
    pub fn duplicate(&self) -> (r: Self)
        ensures
            r.spec_view() == self.spec_view(),
    {
        let mut values: Vec<String> = Vec::new();
        let n = self.values.len();
        let mut i: usize = 0;
        while i < n
            invariant
                n == self.values@.len(),
                i <= n,
                values.deep_view() == self.values.deep_view().take(i as int),
            decreases n - i,
        {
            values.push(self.values[i].clone());
            proof {
                assert(self.values.deep_view().take(i + 1) == self.values.deep_view().take(
                    i as int,
                ).push(self.values@[i as int]@));
            }
            i += 1;
        }
        proof {
            assert(self.values.deep_view().take(n as int) == self.values.deep_view());
        }
        CliArg { name: self.name.clone(), values }
    }

    fn push(&mut self, s: String)
        ensures
            final(self).name == old(self).name,
            final(self).values@ == old(self).values@.push(s),
    {
        self.values.push(s);
    }

    /// No arguments at all.
    pub fn default() -> (r: Vec<Self>)
        ensures
            r@.len() == 0,
    {
        Vec::new()
    }
}

/// Holder of the value of one argument, empty until the argument is seen.
#[derive(Debug)]
pub struct StringArgToValue<T> {
    pub val: Option<T>,
}

impl<T> StringArgToValue<T> {
    pub fn new() -> (r: Self)
        ensures
            r.val is None,
    {
        StringArgToValue { val: None }
    }
}

#[derive(Debug)]
pub enum ParseCliArgsError {
    NoNameSet(String),
}

/// Why the named arguments were refused.
#[derive(Debug)]
pub enum BadArgumentsError {
    UnknownArg(CliArg),
    DuplicateArg(CliArg),
    TooManyValues { arg: CliArg, expected: usize },
    NotEnoughValues { arg: CliArg, expected: usize },
    ParseError { arg: CliArg, target_type: String },
}

/// A word that starts with the flag indicator `-` names an argument.
pub open spec fn is_flag(s: Seq<char>) -> bool {
    s.len() > 0 && s[0] == '-'
}

/// Whether `s` starts with `-`.
pub fn starts_with_flag(s: &str) -> (r: bool)
    ensures
        r == is_flag(s@),
{
    broadcast use vstd::string::axiom_spec_iter, vstd::string::next_postcondition;

    let mut it = s.chars();
    match it.next() {
        Some(c) => c == '-',
        None => false,
    }
}

/// Grouping state after reading some words: the finished arguments, the
/// name being filled (if any) and its values so far; or the first word that
/// came before any name.
pub open spec fn prep_state(args: Seq<Seq<char>>) -> Result<
    (Seq<ArgView>, Option<Seq<char>>, Seq<Seq<char>>),
    Seq<char>,
>
    decreases args.len(),
{
    if args.len() == 0 {
        Ok((Seq::empty(), None, Seq::empty()))
    } else {
        match prep_state(args.drop_last()) {
            Err(e) => Err(e),
            Ok((done, name, vals)) => {
                let a = args.last();
                if is_flag(a) {
                    match name {
                        Some(n) => Ok((done.push((n, vals)), Some(a), Seq::empty())),
                        None => Ok((done, Some(a), Seq::empty())),
                    }
                } else if name is Some {
                    Ok((done, name, vals.push(a)))
                } else {
                    Err(a)
                }
            },
        }
    }
}

/// The named arguments that the words stand for, or the first word that
/// came before any name.
pub open spec fn spec_prepare_cli_args(args: Seq<Seq<char>>) -> Result<Seq<ArgView>, Seq<char>> {
    if args.len() == 0 {
        Ok(Seq::empty())
    } else {
        match prep_state(args) {
            Err(e) => Err(e),
            Ok((done, Some(n), vals)) => Ok(done.push((n, vals))),
            Ok((done, None, _)) => Ok(done),
        }
    }
}

proof fn lemma_prep_state_named(args: Seq<Seq<char>>)
    requires
        args.len() > 0,
        prep_state(args) is Ok,
    ensures
        prep_state(args)->Ok_0.1 is Some,
    decreases args.len(),
{
    if args.len() > 1 {
        lemma_prep_state_named(args.drop_last());
    }
}

proof fn lemma_prep_state_err_stays(args: Seq<Seq<char>>, more: Seq<Seq<char>>)
    requires
        prep_state(args) is Err,
    ensures
        prep_state(args + more) == prep_state(args),
    decreases more.len(),
{
    if more.len() == 0 {
        assert(args + more == args);
    } else {
        lemma_prep_state_err_stays(args, more.drop_last());
        assert((args + more).drop_last() == args + more.drop_last());
    }
}

/// The model of a list of arguments.
pub open spec fn args_view(v: Seq<CliArg>) -> Seq<ArgView> {
    v.map_values(|a: CliArg| a.spec_view())
}

/// Groups words into named arguments: a word starting with `-` opens a new
/// argument and the words after it are its values. A word before any name
/// is refused.
pub fn prepare_cli_args(args: Vec<String>) -> (r: Result<Vec<CliArg>, ParseCliArgsError>)
    ensures
        match (r, spec_prepare_cli_args(args.deep_view())) {
            (Ok(v), Ok(m)) => args_view(v@) == m,
            (Err(ParseCliArgsError::NoNameSet(w)), Err(m)) => w@ == m,
            _ => false,
        },
{
    if args.len() == 0 {
        return Ok(CliArg::default());
    }
    let ghost all = args.deep_view();
    let mut arg_values: Vec<CliArg> = Vec::new();
    let mut current_arg_values: Vec<String> = Vec::new();
    let mut current_arg_name: Option<String> = None;
    let n = args.len();
    let mut i: usize = 0;
    while i < n
        invariant
            n == args@.len(),
            all == args.deep_view(),
            0 <= i <= n,
            prep_state(all.take(i as int)) matches Ok((done, name, vals)) && {
                &&& args_view(arg_values@) == done
                &&& current_arg_values.deep_view() == vals
                &&& match current_arg_name {
                    Some(s) => name == Some(s@),
                    None => name is None,
                }
            },
        decreases n - i,
    {
        let arg = args[i].clone();
        proof {
            assert(all.take(i + 1).drop_last() == all.take(i as int));
            assert(all.take(i + 1).last() == arg@);
        }
        if starts_with_flag(arg.as_str()) {
            match current_arg_name {
                Some(new_name) => {
                    let ghost before = arg_values@;
                    arg_values.push(CliArg { name: new_name, values: current_arg_values.clone() });
                    proof {
                        assert(args_view(arg_values@) == args_view(before).push(
                            arg_values@.last().spec_view(),
                        ));
                    }
                    current_arg_values.clear();
                },
                None => {},
            }
            current_arg_name = Some(arg);
        } else if current_arg_name.is_some() {
            current_arg_values.push(arg);
        } else {
            proof {
                lemma_prep_state_err_stays(all.take(i + 1), all.skip(i + 1));
                assert(all.take(i + 1) + all.skip(i + 1) == all);
            }
            return Err(ParseCliArgsError::NoNameSet(arg));
        }
        i += 1;
    }
    proof {
        assert(all.take(n as int) == all);
        lemma_prep_state_named(all);
    }
    match current_arg_name {
        Some(new_name) => {
            let ghost before = arg_values@;
            arg_values.push(CliArg { name: new_name, values: current_arg_values });
            proof {
                assert(args_view(arg_values@) == args_view(before).push(
                    arg_values@.last().spec_view(),
                ));
            }
        },
        None => {
            proof {
                assert(false);
            }
        },
    }
    Ok(arg_values)
}

/// Checks that an argument carries exactly the expected number of values.
fn parse_arg(arg: &CliArg, num_expected_values: usize) -> (r: Result<(), BadArgumentsError>)
    ensures
        arg.values@.len() == num_expected_values <==> r is Ok,
        arg.values@.len() < num_expected_values ==> (r matches Err(
            BadArgumentsError::NotEnoughValues { arg: a, expected },
        ) && a.spec_view() == arg.spec_view() && expected == num_expected_values),
        arg.values@.len() > num_expected_values ==> (r matches Err(
            BadArgumentsError::TooManyValues { arg: a, expected },
        ) && a.spec_view() == arg.spec_view() && expected == num_expected_values),
{
    let n = arg.values.len();
    if n == num_expected_values {
        Ok(())
    } else if n < num_expected_values {
        Err(BadArgumentsError::NotEnoughValues { arg: arg.duplicate(), expected: num_expected_values })
    } else {
        Err(BadArgumentsError::TooManyValues { arg: arg.duplicate(), expected: num_expected_values })
    }
}

/// Value of the decimal digits `s` (most significant first).
pub open spec fn digits_value(s: Seq<char>) -> int
    decreases s.len(),
{
    if s.len() == 0 {
        0
    } else {
        digits_value(s.drop_last()) * 10 + (s.last() as int - '0' as int)
    }
}

pub open spec fn all_digits(s: Seq<char>) -> bool {
    forall|i: int| 0 <= i < s.len() ==> '0' <= #[trigger] s[i] <= '9'
}

/// What `from_str` of an unsigned integer type with maximum `max` gives:
/// an optional `+` followed by at least one digit, and a value not above
/// `max`.
pub open spec fn spec_parse_unsigned(s: Seq<char>, max: int) -> Option<int> {
    let d = if s.len() > 0 && s[0] == '+' {
        s.drop_first()
    } else {
        s
    };
    if d.len() > 0 && all_digits(d) && digits_value(d) <= max {
        Some(digits_value(d))
    } else {
        None
    }
}

proof fn lemma_digits_value_nonneg(s: Seq<char>)
    requires
        all_digits(s),
    ensures
        digits_value(s) >= 0,
    decreases s.len(),
{
    if s.len() > 0 {
        assert(all_digits(s.drop_last()));
        lemma_digits_value_nonneg(s.drop_last());
        assert('0' <= s[s.len() - 1]);
    }
}

pub(crate) proof fn lemma_parse_unsigned_nonneg(s: Seq<char>, max: int)
    ensures
        spec_parse_unsigned(s, max) matches Some(n) ==> n >= 0,
{
    let d = if s.len() > 0 && s[0] == '+' {
        s.drop_first()
    } else {
        s
    };
    if d.len() > 0 && all_digits(d) {
        lemma_digits_value_nonneg(d);
    }
}

/// The digits before position `k` of a digit string weigh no more than
/// the whole string.
proof fn lemma_digits_prefix_le(d: Seq<char>, k: int)
    requires
        0 <= k <= d.len(),
        all_digits(d),
    ensures
        digits_value(d.subrange(0, k)) <= digits_value(d),
    decreases d.len() - k,
{
    if k < d.len() {
        let p = d.drop_last();
        assert(all_digits(p));
        if k < d.len() {
            assert(d.subrange(0, k) =~= p.subrange(0, k));
            lemma_digits_prefix_le(p, k);
            lemma_digits_value_nonneg(p);
            assert('0' <= d[d.len() - 1]);
        }
    } else {
        assert(d.subrange(0, k) =~= d);
    }
}

/// Reads an optional `+` followed by decimal digits as a number not above
/// `max`, as `from_str` of an unsigned integer type with maximum `max`
/// does.
fn parse_unsigned(s: &str, max: u16) -> (r: Option<u16>)
    ensures
        match spec_parse_unsigned(s@, max as int) {
            Some(n) => r == Some(n as u16),
            None => r is None,
        },
{
    let c = crate::encoding::str_chars(s);
    let n = c.len();
    let start: usize = if n > 0 && c[0] == '+' {
        1
    } else {
        0
    };
    let ghost d = if s@.len() > 0 && s@[0] == '+' {
        s@.drop_first()
    } else {
        s@
    };
    assert(d =~= c@.subrange(start as int, n as int));
    if start == n {
        return None;
    }
    let mut acc: u32 = 0;
    let mut i: usize = start;
    assert(d.subrange(0, 0) =~= Seq::<char>::empty());
    while i < n
        invariant
            start <= i <= n,
            n == c@.len(),
            c@ == s@,
            d == c@.subrange(start as int, n as int),
            d == (if s@.len() > 0 && s@[0] == '+' {
                s@.drop_first()
            } else {
                s@
            }),
            acc <= max,
            all_digits(d.subrange(0, i - start)),
            acc == digits_value(d.subrange(0, i - start)),
        decreases n - i,
    {
        let ch = c[i];
        if !('0' <= ch && ch <= '9') {
            assert(d[i - start] == ch);
            assert(!all_digits(d));
            return None;
        }
        let ghost pre = d.subrange(0, i - start);
        let ghost next = d.subrange(0, i + 1 - start);
        assert(next.drop_last() =~= pre);
        assert(next.last() == ch);
        assert forall|k: int| 0 <= k < next.len() implies '0' <= #[trigger] next[k] <= '9' by {
            if k < pre.len() {
                assert(next[k] == pre[k]);
            }
        }
        let dv = (ch as u32) - ('0' as u32);
        assert(digits_value(next) == digits_value(pre) * 10 + (ch as int - '0' as int));
        acc = acc * 10 + dv;
        i += 1;
        assert(acc == digits_value(next));
        if acc > max as u32 {
            proof {
                if all_digits(d) {
                    lemma_digits_prefix_le(d, i - start);
                }
            }
            return None;
        }
    }
    assert(d.subrange(0, n - start) =~= d);
    Some(acc as u16)
}

/// Reads a `u16` as `u16::from_str` does.
pub(crate) fn parse_u16(s: &str) -> (r: Option<u16>)
    ensures
        match spec_parse_unsigned(s@, u16::MAX as int) {
            Some(n) => r == Some(n as u16),
            None => r is None,
        },
{
    parse_unsigned(s, u16::MAX)
}

/// Reads a `u8` as `u8::from_str` does.
fn parse_u8(s: &str) -> (r: Option<u8>)
    ensures
        match spec_parse_unsigned(s@, u8::MAX as int) {
            Some(n) => r == Some(n as u8),
            None => r is None,
        },
{
    proof {
        lemma_parse_unsigned_nonneg(s@, u8::MAX as int);
        lemma_parse_unsigned_nonneg(s@, u16::MAX as int);
    }
    match parse_unsigned(s, u8::MAX as u16) {
        Some(v) => Some(v as u8),
        None => None,
    }
}

/// Types that an argument value can be parsed into.
pub trait ArgValue: Sized {
    spec fn parses_to(s: Seq<char>, v: Self) -> bool;

    spec fn parse_fails(s: Seq<char>) -> bool;

    /// Name of the target type, shown when a value does not parse.
    spec fn spec_target_type() -> Seq<char>;

    fn target_type() -> (r: String)
        ensures
            r@ == Self::spec_target_type(),
    ;

    fn parse_value(s: &str) -> (r: Option<Self>)
        ensures
            r is None <==> Self::parse_fails(s@),
            r matches Some(v) ==> Self::parses_to(s@, v),
    ;
}

impl ArgValue for String {
    open spec fn spec_target_type() -> Seq<char> {
        "alloc::string::String"@
    }

    fn target_type() -> (r: String) {
        "alloc::string::String".to_owned()
    }

    open spec fn parses_to(s: Seq<char>, v: Self) -> bool {
        v@ == s
    }

    open spec fn parse_fails(s: Seq<char>) -> bool {
        false
    }

    fn parse_value(s: &str) -> (r: Option<Self>) {
        Some(s.to_owned())
    }
}

impl ArgValue for u16 {
    open spec fn spec_target_type() -> Seq<char> {
        "u16"@
    }

    fn target_type() -> (r: String) {
        "u16".to_owned()
    }

    open spec fn parses_to(s: Seq<char>, v: Self) -> bool {
        spec_parse_unsigned(s, u16::MAX as int) == Some(v as int)
    }

    open spec fn parse_fails(s: Seq<char>) -> bool {
        spec_parse_unsigned(s, u16::MAX as int) is None
    }

    fn parse_value(s: &str) -> (r: Option<Self>) {
        proof {
            lemma_parse_unsigned_nonneg(s@, u16::MAX as int);
        }
        parse_u16(s)
    }
}

impl ArgValue for u8 {
    open spec fn spec_target_type() -> Seq<char> {
        "u8"@
    }

    fn target_type() -> (r: String) {
        "u8".to_owned()
    }

    open spec fn parses_to(s: Seq<char>, v: Self) -> bool {
        spec_parse_unsigned(s, u8::MAX as int) == Some(v as int)
    }

    open spec fn parse_fails(s: Seq<char>) -> bool {
        spec_parse_unsigned(s, u8::MAX as int) is None
    }

    fn parse_value(s: &str) -> (r: Option<Self>) {
        proof {
            lemma_parse_unsigned_nonneg(s@, u8::MAX as int);
        }
        parse_u8(s)
    }
}

/// Fills the holder of a single-valued argument: refuses a second occurrence,
/// a wrong number of values and a value that does not parse.
pub fn parse_single_value_arg<T: ArgValue>(
    arg: CliArg,
    satv: &mut StringArgToValue<T>,
    num_expected_values: usize,
) -> (r: Result<(), BadArgumentsError>)
    requires
        old(satv).val is Some || arg.values@.len() != num_expected_values || num_expected_values
            >= 1,
    ensures
        old(satv).val is Some ==> (r matches Err(BadArgumentsError::DuplicateArg(a))
            && a.spec_view() == arg.spec_view()),
        old(satv).val is None && arg.values@.len() < num_expected_values ==> (r matches Err(
            BadArgumentsError::NotEnoughValues { arg: a, expected },
        ) && a.spec_view() == arg.spec_view() && expected == num_expected_values),
        old(satv).val is None && arg.values@.len() > num_expected_values ==> (r matches Err(
            BadArgumentsError::TooManyValues { arg: a, expected },
        ) && a.spec_view() == arg.spec_view() && expected == num_expected_values),
        old(satv).val is None && arg.values@.len() == num_expected_values ==> {
            if T::parse_fails(arg.values@[0]@) {
                r matches Err(BadArgumentsError::ParseError { arg: a, target_type: t })
                    && a.spec_view() == arg.spec_view() && t@ == T::spec_target_type()
            } else {
                r is Ok && (final(satv).val matches Some(v) && T::parses_to(arg.values@[0]@, v))
            }
        },
        r is Err ==> final(satv).val == old(satv).val,
{
    if satv.val.is_some() {
        return Err(BadArgumentsError::DuplicateArg(arg));
    }
    match parse_arg(&arg, num_expected_values) {
        Ok(()) => {},
        Err(e) => {
            return Err(e);
        },
    }
    let parsed = T::parse_value(arg.values[0].as_str());
    match parsed {
        Some(v) => {
            satv.val = Some(v);
            Ok(())
        },
        None => Err(BadArgumentsError::ParseError { arg, target_type: T::target_type() }),
    }
}

} // verus!
