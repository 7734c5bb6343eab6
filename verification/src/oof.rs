//! Telling flags from plain arguments on a command line.
//!
//! An argument that starts with `--` is a long flag, one that starts with a
//! single `-` is a cluster of short flags, anything else is a plain
//! argument. A flag that takes a value takes the argument that follows it.

use vstd::prelude::*;
use vstd::string::*;
use crate::text::{chars_of, same_text};

verus! {

/// The description of a flag that a command accepts.
#[derive(Debug, PartialEq, Eq)]
pub struct Flag {
    pub long: String,
    pub short: Option<char>,
    pub takes_value: bool,
}

/// A flag by its names and by whether it takes a value.
pub ghost struct FlagView {
    pub long: Seq<char>,
    pub short: Option<char>,
    pub takes_value: bool,
}

impl View for Flag {
    type V = FlagView;

    open spec fn view(&self) -> FlagView {
        FlagView { long: self.long@, short: self.short, takes_value: self.takes_value }
    }
}

impl Flag {
    /// A flag without a value, known as `--name`.
    pub fn long(name: &str) -> (flag: Flag)
        ensures
            flag@ == (FlagView { long: name@, short: None, takes_value: false }),
    {
        Flag { long: name.to_owned(), short: None, takes_value: false }
    }

    /// The same flag, also known by a single letter.
    pub fn short(self, letter: char) -> (flag: Flag)
        ensures
            flag@ == (FlagView { short: Some(letter), ..self@ }),
    {
        Flag { long: self.long, short: Some(letter), takes_value: self.takes_value }
    }
}

/// Flags that take a value.
pub struct ArgFlag {}

impl ArgFlag {
    /// A flag that takes a value, known as `--name`.
    pub fn long(name: &str) -> (flag: Flag)
        ensures
            flag@ == (FlagView { long: name@, short: None, takes_value: true }),
    {
        Flag { long: name.to_owned(), short: None, takes_value: true }
    }
}

/// The flags found on a command line, each under its long name.
#[derive(Debug, PartialEq, Eq)]
pub struct Flags {
    pub boolean_flags: Vec<String>,
    pub argument_flags: Vec<(String, String)>,
}

/// The flags found: those without a value, and those with their values.
pub ghost struct FlagsView {
    pub booleans: Seq<Seq<char>>,
    pub arguments: Seq<(Seq<char>, Seq<char>)>,
}

/// The value stored under `name`, if any.
pub open spec fn value_of(arguments: Seq<(Seq<char>, Seq<char>)>, name: Seq<char>) -> Option<
    Seq<char>,
>
    decreases arguments.len(),
{
    if arguments.len() == 0 {
        None
    } else if arguments[0].0 == name {
        Some(arguments[0].1)
    } else {
        value_of(arguments.drop_first(), name)
    }
}

/// The flags with values that are left when the first under `name` is taken
/// out.
pub open spec fn without(arguments: Seq<(Seq<char>, Seq<char>)>, name: Seq<char>) -> Seq<
    (Seq<char>, Seq<char>),
>
    decreases arguments.len(),
{
    if arguments.len() == 0 {
        arguments
    } else if arguments[0].0 == name {
        arguments.drop_first()
    } else {
        seq![arguments[0]] + without(arguments.drop_first(), name)
    }
}

impl FlagsView {
    pub open spec fn empty() -> FlagsView {
        FlagsView { booleans: Seq::empty(), arguments: Seq::empty() }
    }

    /// Whether the flag `name`, which takes no value, was given.
    pub open spec fn has(self, name: Seq<char>) -> bool {
        self.booleans.contains(name)
    }

    /// The value that was given with the flag `name`.
    pub open spec fn value(self, name: Seq<char>) -> Option<Seq<char>> {
        value_of(self.arguments, name)
    }
}

/// The texts of a list of strings.
pub open spec fn texts(strings: Seq<String>) -> Seq<Seq<char>> {
    strings.map_values(|s: String| s@)
}

impl View for Flags {
    type V = FlagsView;

    open spec fn view(&self) -> FlagsView {
        FlagsView {
            booleans: texts(self.boolean_flags@),
            arguments: self.argument_flags@.map_values(|pair: (String, String)| (pair.0@, pair.1@)),
        }
    }
}

impl Default for Flags {
    fn default() -> (flags: Flags)
        ensures
            flags@ == FlagsView::empty(),
    {
        Flags::new()
    }
}

impl Flags {
    /// No flags at all.
    pub fn new() -> (flags: Flags)
        ensures
            flags@ == FlagsView::empty(),
    {
        let flags = Flags { boolean_flags: Vec::new(), argument_flags: Vec::new() };
        assert(flags@.booleans =~= Seq::empty());
        assert(flags@.arguments =~= Seq::empty());
        flags
    }

    /// Whether the flag `name`, which takes no value, was given.
    pub fn is_present(&self, name: &str) -> (present: bool)
        ensures
            present == self@.has(name@),
    {
        let mut at: usize = 0;
        while at < self.boolean_flags.len()
            invariant
                at <= self.boolean_flags.len(),
                forall|k: int| 0 <= k < at ==> self@.booleans[k] != name@,
            decreases self.boolean_flags.len() - at,
        {
            if same_text(self.boolean_flags[at].as_str(), name) {
                assert(self@.booleans[at as int] == name@);
                return true;
            }
            at += 1;
        }
        false
    }

    /// The position of the first value stored under `name`.
    fn position_of(&self, name: &str) -> (found: Option<usize>)
        ensures
            match found {
                Some(at) => at < self.argument_flags.len() && self@.arguments[at as int].0 == name@
                    && self@.value(name@) == Some(self@.arguments[at as int].1)
                    && self@.arguments.remove(at as int) == without(self@.arguments, name@),
                None => self@.value(name@) is None,
            },
    {
        let ghost all = self@.arguments;
        let mut at: usize = 0;
        assert(all.skip(0) =~= all);
        assert(all.take(0) + without(all.skip(0), name@) =~= without(all, name@));
        while at < self.argument_flags.len()
            invariant
                at <= self.argument_flags.len(),
                all == self@.arguments,
                value_of(all, name@) == value_of(all.skip(at as int), name@),
                without(all, name@) == all.take(at as int) + without(all.skip(at as int), name@),
            decreases self.argument_flags.len() - at,
        {
            let ghost rest = all.skip(at as int);
            assert(rest[0] == all[at as int]);
            assert(rest.drop_first() =~= all.skip(at + 1));
            if same_text(self.argument_flags[at].0.as_str(), name) {
                assert(all.take(at as int) + rest.drop_first() =~= all.remove(at as int));
                return Some(at);
            }
            assert(all.take(at as int) + (seq![rest[0]] + without(rest.drop_first(), name@))
                =~= all.take(at + 1) + without(all.skip(at + 1), name@));
            at += 1;
        }
        None
    }

    /// The value that was given with the flag `name`.
    pub fn arg(&self, name: &str) -> (value: Option<&String>)
        ensures
            match value {
                Some(text) => self@.value(name@) == Some(text@),
                None => self@.value(name@) is None,
            },
    {
        match self.position_of(name) {
            Some(at) => Some(&self.argument_flags[at].1),
            None => None,
        }
    }

    /// Takes out the value that was given with the flag `name`.
    pub fn take_arg(&mut self, name: &str) -> (value: Option<String>)
        ensures
            match value {
                Some(text) => old(self)@.value(name@) == Some(text@),
                None => old(self)@.value(name@) is None,
            },
            final(self)@.booleans == old(self)@.booleans,
            final(self)@.arguments == without(old(self)@.arguments, name@),
    {
        match self.position_of(name) {
            Some(at) => {
                let ghost before = self@.arguments;
                let pair = self.argument_flags.remove(at);
                assert(self@.arguments =~= before.remove(at as int));
                Some(pair.1)
            },
            None => {
                proof {
                    lemma_without_absent(self@.arguments, name@);
                }
                None
            },
        }
    }
}

/// Taking out a name that is not there changes nothing.
pub proof fn lemma_without_absent(arguments: Seq<(Seq<char>, Seq<char>)>, name: Seq<char>)
    requires
        value_of(arguments, name) is None,
    ensures
        without(arguments, name) == arguments,
    decreases arguments.len(),
{
    if arguments.len() > 0 {
        lemma_without_absent(arguments.drop_first(), name);
        assert(seq![arguments[0]] + arguments.drop_first() =~= arguments);
    }
}

/// Why a command line was refused.
#[derive(Debug, PartialEq, Eq)]
pub enum FlagError {
    /// No flag is known by this letter.
    UnknownShortFlag(char),
    /// No flag is known by this name.
    UnknownLongFlag(String),
    /// A short flag that takes a value stands before the end of its cluster.
    MisplacedShortArgFlag(char),
    /// The flag of this name takes a value, and the command line ends
    /// after it.
    MissingValueToFlag(String),
    /// The flag of this name was given twice.
    DuplicatedFlag(String),
}

/// Why a command line was refused.
pub ghost enum FlagFault {
    UnknownShortFlag(char),
    UnknownLongFlag(Seq<char>),
    MisplacedShortArgFlag(char),
    MissingValueToFlag(Seq<char>),
    DuplicatedFlag(Seq<char>),
}

impl View for FlagError {
    type V = FlagFault;

    open spec fn view(&self) -> FlagFault {
        match self {
            FlagError::UnknownShortFlag(letter) => FlagFault::UnknownShortFlag(*letter),
            FlagError::UnknownLongFlag(name) => FlagFault::UnknownLongFlag(name@),
            FlagError::MisplacedShortArgFlag(letter) => FlagFault::MisplacedShortArgFlag(*letter),
            FlagError::MissingValueToFlag(name) => FlagFault::MissingValueToFlag(name@),
            FlagError::DuplicatedFlag(name) => FlagFault::DuplicatedFlag(name@),
        }
    }
}

/// The descriptions of a list of flags.
pub open spec fn flag_views(known: Seq<Flag>) -> Seq<FlagView> {
    known.map_values(|flag: Flag| flag@)
}

/// Whether an argument is a long flag.
pub open spec fn is_long(argument: Seq<char>) -> bool {
    argument.len() >= 2 && argument[0] == '-' && argument[1] == '-'
}

/// Whether an argument is a cluster of short flags.
pub open spec fn is_short(argument: Seq<char>) -> bool {
    argument.len() >= 1 && argument[0] == '-' && !is_long(argument)
}

/// The first of the known flags with the long name `name`.
pub open spec fn find_long(known: Seq<FlagView>, name: Seq<char>) -> Option<FlagView>
    decreases known.len(),
{
    if known.len() == 0 {
        None
    } else if known[0].long == name {
        Some(known[0])
    } else {
        find_long(known.drop_first(), name)
    }
}

/// The first of the known flags with the letter `letter`.
pub open spec fn find_short(known: Seq<FlagView>, letter: char) -> Option<FlagView>
    decreases known.len(),
{
    if known.len() == 0 {
        None
    } else if known[0].short == Some(letter) {
        Some(known[0])
    } else {
        find_short(known.drop_first(), letter)
    }
}

/// Notes that `flag` was given. A flag that takes a value takes `next`, the
/// argument after it; the result then says that `next` was used up.
pub open spec fn recorded(flags: FlagsView, flag: FlagView, next: Option<Seq<char>>) -> Result<
    (FlagsView, bool),
    FlagFault,
> {
    if flag.takes_value {
        if flags.value(flag.long) is Some {
            Err(FlagFault::DuplicatedFlag(flag.long))
        } else {
            match next {
                None => Err(FlagFault::MissingValueToFlag(flag.long)),
                Some(value) => Ok(
                    (
                        FlagsView { arguments: flags.arguments.push((flag.long, value)), ..flags },
                        true,
                    ),
                ),
            }
        }
    } else {
        if flags.has(flag.long) {
            Err(FlagFault::DuplicatedFlag(flag.long))
        } else {
            Ok((FlagsView { booleans: flags.booleans.push(flag.long), ..flags }, false))
        }
    }
}

/// Notes the short flags of a cluster, from the letter at `at` on. Only the
/// last letter may stand for a flag that takes a value.
pub open spec fn cluster_recorded(
    letters: Seq<char>,
    at: int,
    known: Seq<FlagView>,
    flags: FlagsView,
    next: Option<Seq<char>>,
) -> Result<(FlagsView, bool), FlagFault>
    decreases letters.len() - at,
{
    if at < 0 || at >= letters.len() {
        Ok((flags, false))
    } else {
        match find_short(known, letters[at]) {
            None => Err(FlagFault::UnknownShortFlag(letters[at])),
            Some(flag) => if flag.takes_value && at + 1 < letters.len() {
                Err(FlagFault::MisplacedShortArgFlag(letters[at]))
            } else {
                match recorded(flags, flag, next) {
                    Err(fault) => Err(fault),
                    Ok((noted, took)) => if took {
                        Ok((noted, true))
                    } else {
                        cluster_recorded(letters, at + 1, known, noted, next)
                    },
                }
            },
        }
    }
}

/// Goes through the arguments from position `at` on, with the plain
/// arguments kept and the flags found so far.
pub open spec fn filtered_from(
    arguments: Seq<Seq<char>>,
    at: int,
    known: Seq<FlagView>,
    kept: Seq<Seq<char>>,
    flags: FlagsView,
) -> Result<(Seq<Seq<char>>, FlagsView), FlagFault>
    decreases arguments.len() - at,
{
    if at < 0 || at >= arguments.len() {
        Ok((kept, flags))
    } else {
        let argument = arguments[at];
        let next = if at + 1 < arguments.len() {
            Some(arguments[at + 1])
        } else {
            None
        };
        if is_long(argument) {
            match find_long(known, argument.skip(2)) {
                None => Err(FlagFault::UnknownLongFlag(argument.skip(2))),
                Some(flag) => match recorded(flags, flag, next) {
                    Err(fault) => Err(fault),
                    Ok((noted, took)) => filtered_from(
                        arguments,
                        if took && next is Some {
                            at + 2
                        } else {
                            at + 1
                        },
                        known,
                        kept,
                        noted,
                    ),
                },
            }
        } else if is_short(argument) {
            match cluster_recorded(argument.skip(1), 0, known, flags, next) {
                Err(fault) => Err(fault),
                Ok((noted, took)) => filtered_from(
                    arguments,
                    if took && next is Some {
                        at + 2
                    } else {
                        at + 1
                    },
                    known,
                    kept,
                    noted,
                ),
            }
        } else {
            filtered_from(arguments, at + 1, known, kept.push(argument), flags)
        }
    }
}

/// The plain arguments of a command line, in their order, and the flags
/// found among them; or why the command line is refused.
pub open spec fn filtered(arguments: Seq<Seq<char>>, known: Seq<FlagView>) -> Result<
    (Seq<Seq<char>>, FlagsView),
    FlagFault,
> {
    filtered_from(arguments, 0, known, Seq::empty(), FlagsView::empty())
}

/// The first of the known flags with the long name `name`.
fn lookup_long<'a>(known: &'a Vec<Flag>, name: &str) -> (found: Option<&'a Flag>)
    ensures
        match found {
            Some(flag) => find_long(flag_views(known@), name@) == Some(flag@),
            None => find_long(flag_views(known@), name@) is None,
        },
{
    let ghost all = flag_views(known@);
    let mut at: usize = 0;
    assert(all.skip(0) =~= all);
    while at < known.len()
        invariant
            at <= known.len(),
            all == flag_views(known@),
            find_long(all, name@) == find_long(all.skip(at as int), name@),
        decreases known.len() - at,
    {
        assert(all.skip(at as int)[0] == known@[at as int]@);
        assert(all.skip(at as int).drop_first() =~= all.skip(at + 1));
        if same_text(known[at].long.as_str(), name) {
            return Some(&known[at]);
        }
        at += 1;
    }
    None
}

/// The first of the known flags with the letter `letter`.
fn lookup_short<'a>(known: &'a Vec<Flag>, letter: char) -> (found: Option<&'a Flag>)
    ensures
        match found {
            Some(flag) => find_short(flag_views(known@), letter) == Some(flag@),
            None => find_short(flag_views(known@), letter) is None,
        },
{
    let ghost all = flag_views(known@);
    let mut at: usize = 0;
    assert(all.skip(0) =~= all);
    while at < known.len()
        invariant
            at <= known.len(),
            all == flag_views(known@),
            find_short(all, letter) == find_short(all.skip(at as int), letter),
        decreases known.len() - at,
    {
        assert(all.skip(at as int)[0] == known@[at as int]@);
        assert(all.skip(at as int).drop_first() =~= all.skip(at + 1));
        let matches = match known[at].short {
            Some(short) => short == letter,
            None => false,
        };
        if matches {
            return Some(&known[at]);
        }
        at += 1;
    }
    None
}

/// Notes that `flag` was given, with `next` as the argument after it.
fn record(flags: &mut Flags, flag: &Flag, next: Option<&String>) -> (result: Result<
    bool,
    FlagError,
>)
    ensures
        match recorded(
            old(flags)@,
            flag@,
            match next {
                Some(text) => Some(text@),
                None => None,
            },
        ) {
            Ok((noted, took)) => result == Ok::<bool, FlagError>(took) && final(flags)@ == noted,
            Err(fault) => result matches Err(error) && error@ == fault,
        },
{
    if flag.takes_value {
        if flags.arg(flag.long.as_str()).is_some() {
            return Err(FlagError::DuplicatedFlag(flag.long.clone()));
        }
        match next {
            None => Err(FlagError::MissingValueToFlag(flag.long.clone())),
            Some(value) => {
                let ghost before = flags@;
                flags.argument_flags.push((flag.long.clone(), value.clone()));
                assert(flags@.arguments =~= before.arguments.push((flag.long@, value@)));
                assert(flags@.booleans =~= before.booleans);
                Ok(true)
            },
        }
    } else {
        if flags.is_present(flag.long.as_str()) {
            return Err(FlagError::DuplicatedFlag(flag.long.clone()));
        }
        let ghost before = flags@;
        flags.boolean_flags.push(flag.long.clone());
        assert(flags@.booleans =~= before.booleans.push(flag.long@));
        assert(flags@.arguments =~= before.arguments);
        Ok(false)
    }
}

/// Notes the short flags of the cluster `chars`, whose first character is
/// the hyphen.
fn record_cluster(flags: &mut Flags, chars: &Vec<char>, known: &Vec<Flag>, next: Option<&String>) -> (result:
    Result<bool, FlagError>)
    requires
        chars.len() >= 1,
    ensures
        match cluster_recorded(
            chars@.skip(1),
            0,
            flag_views(known@),
            old(flags)@,
            match next {
                Some(text) => Some(text@),
                None => None,
            },
        ) {
            Ok((noted, took)) => result == Ok::<bool, FlagError>(took) && final(flags)@ == noted,
            Err(fault) => result matches Err(error) && error@ == fault,
        },
{
    let ghost letters = chars@.skip(1);
    let ghost following = match next {
        Some(text) => Some(text@),
        None => None,
    };
    let ghost start = flags@;
    let mut at: usize = 1;
    while at < chars.len()
        invariant
            1 <= at <= chars.len(),
            letters == chars@.skip(1),
            start == old(flags)@,
            following == match next {
                Some(text) => Some(text@),
                None => None,
            },
            cluster_recorded(letters, 0, flag_views(known@), start, following) == cluster_recorded(
                letters,
                at - 1,
                flag_views(known@),
                flags@,
                following,
            ),
        decreases chars.len() - at,
    {
        let letter = chars[at];
        assert(letters[at - 1] == letter);
        let flag = match lookup_short(known, letter) {
            Some(flag) => flag,
            None => {
                return Err(FlagError::UnknownShortFlag(letter));
            },
        };
        if flag.takes_value && at + 1 < chars.len() {
            return Err(FlagError::MisplacedShortArgFlag(letter));
        }
        match record(flags, flag, next) {
            Err(error) => {
                return Err(error);
            },
            Ok(took) => {
                if took {
                    return Ok(true);
                }
            },
        }
        at += 1;
    }
    Ok(false)
}

/// Parts a command line into its plain arguments, in their order, and the
/// flags found among them. `known` lists the flags that are accepted.
pub fn filter_flags(arguments: Vec<String>, known: &Vec<Flag>) -> (result: Result<
    (Vec<String>, Flags),
    FlagError,
>)
    ensures
        match filtered(texts(arguments@), flag_views(known@)) {
            Ok((kept, flags)) => result matches Ok(parts) && texts(parts.0@) == kept && parts.1@
                == flags,
            Err(fault) => result matches Err(error) && error@ == fault,
        },
{
    let ghost all = texts(arguments@);
    let mut kept: Vec<String> = Vec::new();
    let mut flags = Flags::new();
    let mut at: usize = 0;
    assert(texts(kept@) =~= Seq::empty());
    while at < arguments.len()
        invariant
            all == texts(arguments@),
            filtered(all, flag_views(known@)) == filtered_from(
                all,
                at as int,
                flag_views(known@),
                texts(kept@),
                flags@,
            ),
        decreases arguments.len() - at,
    {
        let argument = &arguments[at];
        assert(all[at as int] == argument@);
        let chars = chars_of(argument.as_str());
        let next = if at + 1 < arguments.len() {
            assert(all[at + 1] == arguments@[at + 1]@);
            Some(&arguments[at + 1])
        } else {
            None
        };
        let hyphen = chars.len() >= 1 && chars[0] == '-';
        let took = if hyphen && chars.len() >= 2 && chars[1] == '-' {
            let name = argument.as_str().substring_char(2, chars.len());
            assert(name@ =~= argument@.skip(2));
            let flag = match lookup_long(known, name) {
                Some(flag) => flag,
                None => {
                    return Err(FlagError::UnknownLongFlag(name.to_owned()));
                },
            };
            match record(&mut flags, flag, next) {
                Ok(took) => took,
                Err(error) => {
                    return Err(error);
                },
            }
        } else if hyphen {
            match record_cluster(&mut flags, &chars, known, next) {
                Ok(took) => took,
                Err(error) => {
                    return Err(error);
                },
            }
        } else {
            let ghost before = texts(kept@);
            kept.push(argument.clone());
            assert(texts(kept@) =~= before.push(argument@));
            false
        };
        if took && at + 1 < arguments.len() {
            at += 2;
        } else {
            at += 1;
        }
    }
    Ok((kept, flags))
}

/// Whether one of the arguments is the text `wanted`.
pub fn matches_any_arg(arguments: &Vec<String>, wanted: &str) -> (found: bool)
    ensures
        found == texts(arguments@).contains(wanted@),
{
    let mut at: usize = 0;
    while at < arguments.len()
        invariant
            at <= arguments.len(),
            forall|k: int| 0 <= k < at ==> texts(arguments@)[k] != wanted@,
        decreases arguments.len() - at,
    {
        if same_text(arguments[at].as_str(), wanted) {
            assert(texts(arguments@)[at as int] == wanted@);
            return true;
        }
        at += 1;
    }
    false
}

/// Takes the first argument off the command line if it is the subcommand
/// `name`, and says whether it did.
pub fn pop_subcommand(arguments: &mut Vec<String>, name: &str) -> (popped: bool)
    ensures
        popped == (old(arguments)@.len() > 0 && old(arguments)@[0]@ == name@),
        final(arguments)@ == if popped {
            old(arguments)@.drop_first()
        } else {
            old(arguments)@
        },
{
    if arguments.len() > 0 && same_text(arguments[0].as_str(), name) {
        let ghost before = arguments@;
        arguments.remove(0);
        assert(arguments@ =~= before.drop_first());
        true
    } else {
        false
    }
}

} // verus!
