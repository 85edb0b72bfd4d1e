//! Colon commands: a table of named commands with typed parameters, and the
//! parser that binds a typed line to one of them.

use crate::text::push_char;
use vstd::prelude::*;

verus! {

/// The type that a command declares for one of its parameters.
#[derive(Debug)]
pub enum CommandParameterType {
    StringParameter,
    IntParameter,
    FloatParameter,
    OptionalParameter(Box<CommandParameterType>),
}

/// A parameter's value, as the parser hands it to a command. A float keeps
/// the text that was checked to read as one.
#[derive(Debug)]
pub enum CommandParameter {
    StringParameter(String),
    IntParameter(i32),
    FloatParameter(String),
    OptionalParameter(Box<Option<CommandParameter>>),
}

/// What a command does once bound, for the editor to carry out.
#[derive(Debug, Clone, Copy, PartialEq, Eq, Structural)]
pub enum CommandAction {
    Write,
    Edit,
    Quit,
    BufferNext,
    BufferPrevious,
}

/// A command: the names it answers to, the parameters it takes, in order,
/// and what it does.
pub struct Command {
    pub names: Vec<String>,
    pub parameters: Vec<CommandParameterType>,
    pub execute: CommandAction,
}

/// What a parameter's value stands for.
pub enum ParamValue {
    Text(Seq<char>),
    Int(int),
    Float(Seq<char>),
    Optional(Option<Box<ParamValue>>),
}

/// Why a command line was refused.
pub enum CommandError {
    NotFound(Seq<char>),
    TooFewParameters,
    NotAnInt,
    NotAFloat,
}

impl CommandParameter {
    /// What this value stands for.
    pub open spec fn model(self) -> ParamValue
        decreases self,
    {
        match self {
            CommandParameter::StringParameter(s) => ParamValue::Text(s@),
            CommandParameter::IntParameter(v) => ParamValue::Int(v as int),
            CommandParameter::FloatParameter(s) => ParamValue::Float(s@),
            CommandParameter::OptionalParameter(o) => match *o {
                Some(p) => ParamValue::Optional(Some(Box::new(p.model()))),
                None => ParamValue::Optional(None),
            },
        }
    }
}

/// The message that reports an error.
pub open spec fn error_message(e: CommandError) -> Seq<char> {
    match e {
        CommandError::NotFound(name) => "Could not find command \""@ + name + seq!['"'],
        CommandError::TooFewParameters => "Too few parameters provided"@,
        CommandError::NotAnInt => "Could not parse int"@,
        CommandError::NotAFloat => "Could not parse float"@,
    }
}

pub open spec fn is_digit(c: char) -> bool {
    '0' <= c && c <= '9'
}

/// The first position at or after `i` that does not hold a digit.
pub open spec fn digit_run(s: Seq<char>, i: int) -> int
    decreases s.len() - i,
{
    if i < 0 || i >= s.len() || !is_digit(s[i]) {
        if i < 0 { 0 } else if i > s.len() { s.len() as int } else { i }
    } else {
        digit_run(s, i + 1)
    }
}

/// The number that a non-empty run of decimal digits writes.
pub open spec fn digits_value(d: Seq<char>) -> int
    decreases d.len(),
{
    if d.len() == 0 {
        0
    } else {
        10 * digits_value(d.drop_last()) + (d.last() as u32 - '0' as u32)
    }
}

/// The integer that an optional `+` or `-` and then one or more digits write.
pub open spec fn signed_value(s: Seq<char>) -> Option<int> {
    let signed = s.len() > 0 && (s[0] == '-' || s[0] == '+');
    let d = if signed {
        s.skip(1)
    } else {
        s
    };
    if d.len() > 0 && digit_run(d, 0) == d.len() {
        Some(
            if s[0] == '-' {
                -digits_value(d)
            } else {
                digits_value(d)
            },
        )
    } else {
        None
    }
}

/// The `i32` that `s` writes, if it writes one in range.
pub open spec fn i32_value(s: Seq<char>) -> Option<int> {
    match signed_value(s) {
        Some(v) => if i32::MIN <= v <= i32::MAX {
            Some(v)
        } else {
            None
        },
        None => None,
    }
}

/// Relies on `i32`'s `FromStr`: an optional sign and then decimal digits only,
/// with a value in range.
#[verifier::external_body]
fn parse_i32(s: &str) -> (r: Option<i32>)
    ensures
        match r {
            Some(v) => i32_value(s@) == Some(v as int),
            None => i32_value(s@) is None,
        },
{
    s.parse::<i32>().ok()
}

/// The upper-case form of the letters that float words are made of.
pub open spec fn upper(l: char) -> char {
    if l == 'a' {
        'A'
    } else if l == 'e' {
        'E'
    } else if l == 'f' {
        'F'
    } else if l == 'i' {
        'I'
    } else if l == 'n' {
        'N'
    } else if l == 't' {
        'T'
    } else if l == 'y' {
        'Y'
    } else {
        l
    }
}

/// `c` is the lower-case letter `l`, in either case.
pub open spec fn letter_is(c: char, l: char) -> bool {
    c == l || c == upper(l)
}

fn upper_of(l: char) -> (r: char)
    ensures
        r == upper(l),
{
    if l == 'a' {
        'A'
    } else if l == 'e' {
        'E'
    } else if l == 'f' {
        'F'
    } else if l == 'i' {
        'I'
    } else if l == 'n' {
        'N'
    } else if l == 't' {
        'T'
    } else if l == 'y' {
        'Y'
    } else {
        l
    }
}

/// `s` is the lower-case word `w`, each letter in either case.
pub open spec fn word_is(s: Seq<char>, w: Seq<char>) -> bool {
    s.len() == w.len() && forall|i: int| 0 <= i < s.len() ==> letter_is(#[trigger] s[i], w[i])
}

/// Empty, or `e`, an optional sign and one or more digits.
pub open spec fn exponent_ok(x: Seq<char>) -> bool {
    x.len() == 0 || (letter_is(x[0], 'e') && {
        let y = if x.len() > 1 && (x[1] == '+' || x[1] == '-') {
            x.skip(2)
        } else {
            x.skip(1)
        };
        y.len() > 0 && digit_run(y, 0) == y.len()
    })
}

/// Digits with at most one `.` among them, at least one digit, then an
/// exponent.
pub open spec fn number_ok(t: Seq<char>) -> bool {
    let a = digit_run(t, 0);
    let has_dot = a < t.len() && t[a] == '.';
    let b = if has_dot {
        digit_run(t, a + 1)
    } else {
        a
    };
    let digits = if has_dot {
        b - 1
    } else {
        a
    };
    digits > 0 && exponent_ok(t.skip(b))
}

/// The text of a decimal float: an optional sign, then `inf`, `infinity`,
/// `nan` in any case, or a number with an optional exponent.
pub open spec fn float_text(s: Seq<char>) -> bool {
    let t = if s.len() > 0 && (s[0] == '+' || s[0] == '-') {
        s.skip(1)
    } else {
        s
    };
    word_is(t, seq!['i', 'n', 'f']) || word_is(t, seq!['i', 'n', 'f', 'i', 'n', 'i', 't', 'y'])
        || word_is(t, seq!['n', 'a', 'n']) || number_ok(t)
}

/// What a parameter's text stands for under its declared type.
pub open spec fn parse_value(s: Seq<char>, ty: CommandParameterType) -> Result<
    ParamValue,
    CommandError,
>
    decreases ty,
{
    match ty {
        CommandParameterType::StringParameter => Ok(ParamValue::Text(s)),
        CommandParameterType::IntParameter => match i32_value(s) {
            Some(v) => Ok(ParamValue::Int(v)),
            None => Err(CommandError::NotAnInt),
        },
        CommandParameterType::FloatParameter => if float_text(s) {
            Ok(ParamValue::Float(s))
        } else {
            Err(CommandError::NotAFloat)
        },
        CommandParameterType::OptionalParameter(inner) => match parse_value(s, *inner) {
            Ok(v) => Ok(ParamValue::Optional(Some(Box::new(v)))),
            Err(e) => Err(e),
        },
    }
}

proof fn lemma_digit_run_bounds(s: Seq<char>, i: int)
    requires
        0 <= i,
    ensures
        i <= s.len() ==> i <= digit_run(s, i) <= s.len(),
        i > s.len() ==> digit_run(s, i) == s.len(),
        forall|j: int| i <= j < digit_run(s, i) ==> is_digit(#[trigger] s[j]),
        digit_run(s, i) < s.len() ==> !is_digit(s[digit_run(s, i)]),
    decreases s.len() - i,
{
    if i < s.len() && is_digit(s[i]) {
        lemma_digit_run_bounds(s, i + 1);
    }
}

proof fn lemma_digit_run_skip(s: Seq<char>, k: int, i: int)
    requires
        0 <= k <= s.len(),
        0 <= i,
    ensures
        digit_run(s.skip(k), i) == digit_run(s, i + k) - k,
    decreases s.len() - i,
{
    if i < s.len() - k && is_digit(s[i + k]) {
        lemma_digit_run_skip(s, k, i + 1);
    }
}

/// The chars of `s`.
fn chars_of(s: &str) -> (r: Vec<char>)
    ensures
        r@ == s@,
{
    let n = s.unicode_len();
    let mut r: Vec<char> = Vec::new();
    let mut i: usize = 0;
    while i < n
        invariant
            n == s@.len(),
            i <= n,
            r@ == s@.take(i as int),
        decreases n - i,
    {
        r.push(s.get_char(i));
        i = i + 1;
        assert(r@ =~= s@.take(i as int));
    }
    assert(r@ =~= s@);
    r
}

fn digit_run_at(v: &Vec<char>, i: usize) -> (r: usize)
    requires
        i <= v@.len(),
    ensures
        r == digit_run(v@, i as int),
        i <= r <= v@.len(),
{
    let mut j = i;
    while j < v.len() && '0' <= v[j] && v[j] <= '9'
        invariant
            i <= j <= v@.len(),
            digit_run(v@, i as int) == digit_run(v@, j as int),
        decreases v@.len() - j,
    {
        j = j + 1;
    }
    j
}

/// Whether the chars from `k` on are the lower-case word `w`, each letter in
/// either case.
fn word_at(v: &Vec<char>, k: usize, w: &Vec<char>) -> (r: bool)
    requires
        k <= v@.len(),
    ensures
        r == word_is(v@.skip(k as int), w@),
{
    let n = v.len();
    if n - k != w.len() {
        return false;
    }
    let mut i: usize = 0;
    while i < w.len()
        invariant
            n == v@.len(),
            k <= v@.len(),
            v@.len() - k == w@.len(),
            i <= w@.len(),
            forall|j: int| 0 <= j < i ==> letter_is(#[trigger] v@.skip(k as int)[j], w@[j]),
        decreases w@.len() - i,
    {
        let c = v[k + i];
        let l = w[i];
        if !(c == l || c == upper_of(l)) {
            assert(!letter_is(v@.skip(k as int)[i as int], w@[i as int]));
            return false;
        }
        i = i + 1;
    }
    true
}

/// Whether the chars from `b` on make an exponent, or nothing.
fn exponent_at(v: &Vec<char>, b: usize) -> (r: bool)
    requires
        b <= v@.len(),
    ensures
        r == exponent_ok(v@.skip(b as int)),
{
    let n = v.len();
    if b == n {
        assert(v@.skip(b as int).len() == 0);
        return true;
    }
    let ghost x = v@.skip(b as int);
    assert(x[0] == v@[b as int]);
    if !(v[b] == 'e' || v[b] == 'E') {
        return false;
    }
    let c = if b + 1 < n && (v[b + 1] == '+' || v[b + 1] == '-') {
        assert(x.skip(2) =~= v@.skip(b + 2));
        b + 2
    } else {
        assert(x.skip(1) =~= v@.skip(b + 1));
        b + 1
    };
    proof {
        lemma_digit_run_skip(v@, c as int, 0);
    }
    c < n && digit_run_at(v, c) == n
}

/// Whether the chars from `k` on make a number.
fn number_at(v: &Vec<char>, k: usize) -> (r: bool)
    requires
        k <= v@.len(),
    ensures
        r == number_ok(v@.skip(k as int)),
{
    let ghost t = v@.skip(k as int);
    let n = v.len();
    let a = digit_run_at(v, k);
    proof {
        lemma_digit_run_skip(v@, k as int, 0);
    }
    let has_dot = a < n && v[a] == '.';
    let b = if has_dot {
        proof {
            lemma_digit_run_skip(v@, k as int, (a - k + 1) as int);
        }
        digit_run_at(v, a + 1)
    } else {
        a
    };
    let digits = if has_dot {
        b - 1 - k
    } else {
        a - k
    };
    assert(t.skip(b - k) =~= v@.skip(b as int));
    digits > 0 && exponent_at(v, b)
}

/// Whether `v` is the text of a decimal float.
fn is_float_text(v: &Vec<char>) -> (r: bool)
    ensures
        r == float_text(v@),
{
    let k: usize = if v.len() > 0 && (v[0] == '+' || v[0] == '-') {
        1
    } else {
        0
    };
    assert(v@.skip(0) =~= v@);
    word_at(v, k, &vec!['i', 'n', 'f']) || word_at(
        v,
        k,
        &vec!['i', 'n', 'f', 'i', 'n', 'i', 't', 'y'],
    ) || word_at(v, k, &vec!['n', 'a', 'n']) || number_at(v, k)
}

/// Turns the text of one parameter into a value of its declared type.
fn parse_parameter(parameter_string: &str, parameter_type: &CommandParameterType) -> (r: Result<
    CommandParameter,
    String,
>)
    ensures
        match r {
            Ok(p) => parse_value(parameter_string@, *parameter_type) == Ok::<
                ParamValue,
                CommandError,
            >(p.model()),
            Err(m) => parse_value(parameter_string@, *parameter_type) is Err && m@
                == error_message(parse_value(parameter_string@, *parameter_type)->Err_0),
        },
    decreases parameter_type,
{
    let param = match parameter_type {
        CommandParameterType::StringParameter => {
            CommandParameter::StringParameter(parameter_string.to_owned())
        },
        CommandParameterType::FloatParameter => {
            let chars = chars_of(parameter_string);
            if is_float_text(&chars) {
                CommandParameter::FloatParameter(parameter_string.to_owned())
            } else {
                return Err("Could not parse float".to_owned());
            }
        },
        CommandParameterType::IntParameter => {
            if let Some(parsed_int) = parse_i32(parameter_string) {
                CommandParameter::IntParameter(parsed_int)
            } else {
                return Err("Could not parse int".to_owned());
            }
        },
        CommandParameterType::OptionalParameter(optional_type) => {
            let inner = parse_parameter(parameter_string, optional_type)?;
            CommandParameter::OptionalParameter(Box::new(Some(inner)))
        },
    };
    Ok(param)
}

/// A copy of a parameter type.
fn copy_type(t: &CommandParameterType) -> (r: CommandParameterType)
    ensures
        r == *t,
    decreases t,
{
    match t {
        CommandParameterType::StringParameter => CommandParameterType::StringParameter,
        CommandParameterType::IntParameter => CommandParameterType::IntParameter,
        CommandParameterType::FloatParameter => CommandParameterType::FloatParameter,
        CommandParameterType::OptionalParameter(inner) => CommandParameterType::OptionalParameter(
            Box::new(copy_type(inner)),
        ),
    }
}

impl Command {
    pub fn new(names: &[&str], parameters: &[CommandParameterType], execute: CommandAction) -> (r:
        Self)
        ensures
            r.names@.len() == names@.len(),
            forall|k: int| 0 <= k < names@.len() ==> #[trigger] r.names@[k]@ == names@[k]@,
            r.parameters@ == parameters@,
            r.execute == execute,
    {
        let mut owned_names: Vec<String> = Vec::new();
        let mut i: usize = 0;
        while i < names.len()
            invariant
                i <= names@.len(),
                owned_names@.len() == i,
                forall|k: int| 0 <= k < i ==> #[trigger] owned_names@[k]@ == names@[k]@,
            decreases names@.len() - i,
        {
            owned_names.push(names[i].to_owned());
            i = i + 1;
        }
        let mut types: Vec<CommandParameterType> = Vec::new();
        let mut j: usize = 0;
        while j < parameters.len()
            invariant
                j <= parameters@.len(),
                types@ == parameters@.take(j as int),
            decreases parameters@.len() - j,
        {
            types.push(copy_type(&parameters[j]));
            j = j + 1;
            assert(types@ =~= parameters@.take(j as int));
        }
        assert(types@ =~= parameters@);
        Command { names: owned_names, parameters: types, execute }
    }
}

/// `s` cut at each space; two spaces in a row give an empty piece.
pub open spec fn split_spaces(s: Seq<char>) -> Seq<Seq<char>>
    decreases s.len(),
{
    if s.len() == 0 {
        seq![Seq::empty()]
    } else {
        let rest = split_spaces(s.drop_last());
        if s.last() == ' ' {
            rest.push(Seq::empty())
        } else {
            rest.update(rest.len() - 1, rest.last().push(s.last()))
        }
    }
}

proof fn lemma_split_nonempty(s: Seq<char>)
    ensures
        split_spaces(s).len() >= 1,
    decreases s.len(),
{
    if s.len() > 0 {
        lemma_split_nonempty(s.drop_last());
    }
}

/// The views of a sequence of strings.
pub open spec fn views(v: Seq<String>) -> Seq<Seq<char>> {
    v.map_values(|t: String| t@)
}

/// The pieces of `s` between spaces.
fn split_at_spaces(s: &Vec<char>) -> (r: Vec<String>)
    ensures
        views(r@) == split_spaces(s@),
{
    let mut tokens: Vec<String> = Vec::new();
    let mut current = String::new();
    let mut i: usize = 0;
    assert(s@.take(0) =~= Seq::<char>::empty());
    assert(views(tokens@).push(current@) =~= split_spaces(s@.take(0)));
    while i < s.len()
        invariant
            i <= s@.len(),
            views(tokens@).push(current@) == split_spaces(s@.take(i as int)),
        decreases s@.len() - i,
    {
        let c = s[i];
        let ghost before = views(tokens@).push(current@);
        proof {
            lemma_split_nonempty(s@.take(i as int));
            assert(s@.take(i as int + 1).drop_last() =~= s@.take(i as int));
        }
        if c == ' ' {
            tokens.push(current);
            current = String::new();
            assert(views(tokens@).push(current@) =~= before.push(Seq::empty()));
        } else {
            push_char(&mut current, c);
            assert(views(tokens@).push(current@) =~= before.update(
                before.len() - 1,
                before.last().push(c),
            ));
        }
        i = i + 1;
    }
    assert(s@.take(s@.len() as int) =~= s@);
    tokens.push(current);
    assert(views(tokens@) =~= split_spaces(s@));
    tokens
}

/// Command `c` answers to `name`.
pub open spec fn has_name(c: Command, name: Seq<char>) -> bool {
    exists|k: int| 0 <= k < c.names@.len() && #[trigger] c.names@[k]@ == name
}

/// The first command at or after `i` that answers to `name`.
pub open spec fn find_command(cmds: Seq<Command>, name: Seq<char>, i: int) -> Option<int>
    decreases cmds.len() - i,
{
    if i < 0 || i >= cmds.len() {
        None
    } else if has_name(cmds[i], name) {
        Some(i)
    } else {
        find_command(cmds, name, i + 1)
    }
}

/// The value of parameter `j`: parsed from its text where there is one, an
/// empty optional or an error where there is none.
pub open spec fn param_at(args: Seq<Seq<char>>, types: Seq<CommandParameterType>, j: int) -> Result<
    ParamValue,
    CommandError,
> {
    if j < args.len() {
        parse_value(args[j], types[j])
    } else if types[j] is OptionalParameter {
        Ok(ParamValue::Optional(None))
    } else {
        Err(CommandError::TooFewParameters)
    }
}

/// The values of the first `n` parameters, or the first error among them.
pub open spec fn parse_params(args: Seq<Seq<char>>, types: Seq<CommandParameterType>, n: int) -> Result<
    Seq<ParamValue>,
    CommandError,
>
    decreases n,
{
    if n <= 0 {
        Ok(seq![])
    } else {
        match parse_params(args, types, n - 1) {
            Err(e) => Err(e),
            Ok(vs) => match param_at(args, types, n - 1) {
                Ok(v) => Ok(vs.push(v)),
                Err(e) => Err(e),
            },
        }
    }
}

proof fn lemma_params_error_stays(
    args: Seq<Seq<char>>,
    types: Seq<CommandParameterType>,
    j: int,
    n: int,
)
    requires
        0 <= j <= n,
        parse_params(args, types, j) is Err,
    ensures
        parse_params(args, types, n) == parse_params(args, types, j),
    decreases n - j,
{
    if j < n {
        lemma_params_error_stays(args, types, j, n - 1);
    }
}

/// A line without its leading command char.
pub open spec fn command_body(line: Seq<char>) -> Seq<char> {
    if line.len() > 0 {
        line.skip(1)
    } else {
        line
    }
}

/// The command that a typed line binds, with its parameter values, or why
/// none is bound.
pub open spec fn parse_command(cmds: Seq<Command>, line: Seq<char>) -> Result<
    (Seq<ParamValue>, int),
    CommandError,
> {
    let tokens = split_spaces(command_body(line));
    let name = tokens[0];
    let args = tokens.skip(1);
    match find_command(cmds, name, 0) {
        None => Err(CommandError::NotFound(name)),
        Some(ci) => match parse_params(args, cmds[ci].parameters@, cmds[ci].parameters@.len() as int) {
            Ok(vs) => Ok((vs, ci)),
            Err(e) => Err(e),
        },
    }
}

/// The models of a sequence of parameter values.
pub open spec fn models(v: Seq<CommandParameter>) -> Seq<ParamValue> {
    v.map_values(|p: CommandParameter| p.model())
}

/// `r` reports what `parse_command` gives for `line`: the values and the
/// command's index, or the error's message.
pub open spec fn reports_parse(
    r: Result<(Vec<CommandParameter>, usize), String>,
    cmds: Seq<Command>,
    line: Seq<char>,
) -> bool {
    match r {
        Ok((ps, ci)) => parse_command(cmds, line) == Ok::<(Seq<ParamValue>, int), CommandError>(
            (models(ps@), ci as int),
        ),
        Err(m) => parse_command(cmds, line) is Err && m@ == error_message(
            parse_command(cmds, line)->Err_0,
        ),
    }
}

/// Whether command `command` answers to `name`.
fn answers_to(command: &Command, name: &String) -> (r: bool)
    ensures
        r == has_name(*command, name@),
{
    let mut k: usize = 0;
    while k < command.names.len()
        invariant
            k <= command.names@.len(),
            forall|m: int| 0 <= m < k ==> #[trigger] command.names@[m]@ != name@,
        decreases command.names@.len() - k,
    {
        if command.names[k] == *name {
            return true;
        }
        k = k + 1;
    }
    false
}

/// The message for a name that no command answers to.
fn not_found_message(name: &String) -> (r: String)
    ensures
        r@ == error_message(CommandError::NotFound(name@)),
{
    let chars = chars_of(name.as_str());
    let mut m = "Could not find command \"".to_owned();
    let ghost prefix = m@;
    let mut i: usize = 0;
    while i < chars.len()
        invariant
            i <= chars@.len(),
            chars@ == name@,
            m@ == prefix + chars@.take(i as int),
        decreases chars@.len() - i,
    {
        push_char(&mut m, chars[i]);
        i = i + 1;
        assert(m@ =~= prefix + chars@.take(i as int));
    }
    push_char(&mut m, '"');
    assert(chars@.take(chars@.len() as int) =~= chars@);
    m
}

/// Binds a typed command line, such as `:w notes.txt`, to a command of the
/// table and the values of its parameters. The first char is taken as the
/// command char; the rest is cut at spaces into a name and arguments. The
/// first command that answers to the name is bound. Each declared parameter
/// takes the argument at its place; a missing one gives an empty optional,
/// or an error where the parameter is not optional. Extra arguments are
/// ignored.
pub fn prepare_command(commands: &Vec<Command>, string: &str) -> (r: Result<
    (Vec<CommandParameter>, usize),
    String,
>)
    ensures
        reports_parse(r, commands@, string@),
{
    let line = chars_of(string);
    let mut body: Vec<char> = Vec::new();
    let mut i: usize = 1;
    while i < line.len()
        invariant
            1 <= i,
            line@.len() >= 1 ==> i <= line@.len(),
            line@ == string@,
            i <= line@.len() ==> body@ == line@.subrange(1, i as int),
            line@.len() < 1 ==> body@.len() == 0,
        decreases line@.len() - i,
    {
        body.push(line[i]);
        i = i + 1;
        assert(body@ =~= line@.subrange(1, i as int));
    }
    assert(body@ =~= command_body(string@));
    let fragments = split_at_spaces(&body);
    proof {
        lemma_split_nonempty(body@);
    }
    let ghost tokens = split_spaces(body@);
    assert(fragments@[0]@ == tokens[0]);
    assert(fragments@.len() == views(fragments@).len());
    let command_string = &fragments[0];
    let ghost args = tokens.skip(1);
    let mut command_index: usize = 0;
    while command_index < commands.len()
        invariant
            command_index <= commands@.len(),
            views(fragments@) == tokens,
            tokens == split_spaces(command_body(string@)),
            args == tokens.skip(1),
            command_string@ == tokens[0],
            tokens.len() >= 1,
            fragments@.len() == tokens.len(),
            find_command(commands@, tokens[0], 0) == find_command(
                commands@,
                tokens[0],
                command_index as int,
            ),
        decreases commands@.len() - command_index,
    {
        let command = &commands[command_index];
        if answers_to(command, command_string) {
            let ghost types = command.parameters@;
            let mut parameters: Vec<CommandParameter> = Vec::new();
            let mut param_index: usize = 0;
            assert(models(parameters@) =~= seq![]);
            assert(args.len() == fragments@.len() - 1);
            assert(parse_command(commands@, string@) == match parse_params(
                args,
                types,
                types.len() as int,
            ) {
                Ok(vs) => Ok((vs, command_index as int)),
                Err(e) => Err(e),
            });
            assert(find_command(commands@, tokens[0], command_index as int) == Some(
                command_index as int,
            ));
            while param_index < command.parameters.len()
                invariant
                    param_index <= types.len(),
                    types == command.parameters@,
                    views(fragments@) == tokens,
                    args == tokens.skip(1),
                    args.len() == fragments@.len() - 1,
                    parse_command(commands@, string@) == match parse_params(
                        args,
                        types,
                        types.len() as int,
                    ) {
                        Ok(vs) => Ok((vs, command_index as int)),
                        Err(e) => Err(e),
                    },
                    parse_params(args, types, param_index as int) == Ok::<
                        Seq<ParamValue>,
                        CommandError,
                    >(models(parameters@)),
                decreases types.len() - param_index,
            {
                let parameter_type = &command.parameters[param_index];
                let ghost before = models(parameters@);
                if param_index + 1 < fragments.len() {
                    assert(fragments@[param_index + 1]@ == args[param_index as int]);
                    let parsed = parse_parameter(fragments[param_index + 1].as_str(), parameter_type);
                    match parsed {
                        Ok(parameter) => {
                            parameters.push(parameter);
                            assert(models(parameters@) =~= before.push(parameter.model()));
                        },
                        Err(message) => {
                            assert(param_at(args, types, param_index as int) is Err);
                            assert(parse_params(args, types, param_index + 1) == Err::<
                                Seq<ParamValue>,
                                CommandError,
                            >(parse_value(args[param_index as int], types[param_index as int])->Err_0));
                            proof {
                                lemma_params_error_stays(
                                    args,
                                    types,
                                    param_index + 1,
                                    types.len() as int,
                                );
                            }
                            return Err(message);
                        },
                    }
                } else {
                    match parameter_type {
                        CommandParameterType::OptionalParameter(_) => {
                            parameters.push(
                                CommandParameter::OptionalParameter(Box::new(None)),
                            );
                            assert(models(parameters@) =~= before.push(
                                ParamValue::Optional(None),
                            ));
                        },
                        _ => {
                            assert(param_at(args, types, param_index as int) == Err::<
                                ParamValue,
                                CommandError,
                            >(CommandError::TooFewParameters));
                            proof {
                                lemma_params_error_stays(
                                    args,
                                    types,
                                    param_index + 1,
                                    types.len() as int,
                                );
                            }
                            return Err("Too few parameters provided".to_owned());
                        },
                    }
                }
                param_index = param_index + 1;
            }
            return Ok((parameters, command_index));
        }
        command_index = command_index + 1;
    }
    Err(not_found_message(command_string))
}

/// Command `c` has exactly the names `names`, in order.
pub open spec fn named(c: Command, names: Seq<Seq<char>>) -> bool {
    views(c.names@) == names
}

/// The commands every editor has: `write [path]`, `edit <path>`, `quit`,
/// `bnext` and `bprevious`, each also under a short name.
pub fn get_standard_commands() -> (r: Vec<Command>)
    ensures
        r@.len() == 5,
        named(r@[0], seq!["w"@, "write"@]),
        r@[0].parameters@ == seq![
            CommandParameterType::OptionalParameter(Box::new(CommandParameterType::StringParameter)),
        ],
        r@[0].execute == CommandAction::Write,
        named(r@[1], seq!["e"@, "edit"@]),
        r@[1].parameters@ == seq![CommandParameterType::StringParameter],
        r@[1].execute == CommandAction::Edit,
        named(r@[2], seq!["q"@, "quit"@]),
        r@[2].parameters@.len() == 0,
        r@[2].execute == CommandAction::Quit,
        named(r@[3], seq!["bn"@, "bnext"@]),
        r@[3].parameters@.len() == 0,
        r@[3].execute == CommandAction::BufferNext,
        named(r@[4], seq!["bp"@, "bprevious"@]),
        r@[4].parameters@.len() == 0,
        r@[4].execute == CommandAction::BufferPrevious,
{
    let write = Command::new(
        &["w", "write"],
        &[CommandParameterType::OptionalParameter(Box::new(CommandParameterType::StringParameter))],
        CommandAction::Write,
    );
    assert(views(write.names@) =~= seq!["w"@, "write"@]);
    let edit = Command::new(&["e", "edit"], &[CommandParameterType::StringParameter], CommandAction::Edit);
    assert(views(edit.names@) =~= seq!["e"@, "edit"@]);
    let quit = Command::new(&["q", "quit"], &[], CommandAction::Quit);
    assert(views(quit.names@) =~= seq!["q"@, "quit"@]);
    let next = Command::new(&["bn", "bnext"], &[], CommandAction::BufferNext);
    assert(views(next.names@) =~= seq!["bn"@, "bnext"@]);
    let previous = Command::new(&["bp", "bprevious"], &[], CommandAction::BufferPrevious);
    assert(views(previous.names@) =~= seq!["bp"@, "bprevious"@]);
    vec![write, edit, quit, next, previous]
}

} // verus!
