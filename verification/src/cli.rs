//! The arguments of the command line: which ones a program declares, and
//! what the words of a command line set them to.

use crate::text::{
    spec_eq_index, spec_has_eq, spec_parse_i64, spec_trim_dashes, spec_unicode_lower,
    str_parse_i64, str_split_once_eq, str_to_lowercase, str_trim_dashes,
};
use vstd::prelude::*;

verus! {

/// The type of value that an argument holds.
#[derive(Clone, Copy, Debug, PartialEq, Eq, Structural)]
pub enum CLIArgType {
    String,
    Int,
    Float,
    Bool,
}

impl Default for CLIArgType {
    fn default() -> (t: CLIArgType)
        ensures
            t == CLIArgType::String,
    {
        CLIArgType::String
    }
}

/// What an argument does when it stands on the command line.
#[derive(Clone, Copy, Debug, PartialEq, Eq, Structural)]
pub enum CLIArgAction {
    /// Keep the value behind the `=`.
    Store,
    /// Become "true" when named without a value.
    StoreTrue,
    /// Become "false" when named without a value.
    StoreFalse,
}

impl Default for CLIArgAction {
    fn default() -> (a: CLIArgAction)
        ensures
            a == CLIArgAction::Store,
    {
        CLIArgAction::Store
    }
}

/// Why the command line could not be read, or an argument not be had.
#[derive(Clone, Copy, Debug, PartialEq, Eq, Structural)]
pub enum CLIError {
    /// An argument of that name is declared already.
    AlreadyDeclared,
    /// No argument of that name is declared.
    Undeclared,
    /// An argument that stores a value stands without one.
    MissingValue,
    /// The value of the argument is not a number.
    NotANumber,
}

/// One declared argument and its value.
#[derive(Clone, Debug)]
pub struct CLIArg {
    pub arg_name: String,
    pub arg_short_name: Option<String>,
    pub arg_type: CLIArgType,
    pub arg_action: CLIArgAction,
    /// The value, empty until the command line sets it.
    pub arg_value: String,
}

/// A declared argument as a value.
pub struct CLIArgView {
    pub arg_name: Seq<char>,
    pub arg_short_name: Option<Seq<char>>,
    pub arg_type: CLIArgType,
    pub arg_action: CLIArgAction,
    pub arg_value: Seq<char>,
}

impl View for CLIArg {
    type V = CLIArgView;

    open spec fn view(&self) -> CLIArgView {
        CLIArgView {
            arg_name: self.arg_name@,
            arg_short_name: match self.arg_short_name {
                Some(s) => Some(s@),
                None => None,
            },
            arg_type: self.arg_type,
            arg_action: self.arg_action,
            arg_value: self.arg_value@,
        }
    }
}

impl CLIArg {
    /// An argument without a value.
    pub fn new(
        arg_name: &str,
        arg_short_name: Option<&str>,
        arg_type: CLIArgType,
        arg_action: CLIArgAction,
    ) -> (arg: CLIArg)
        ensures
            arg@ == (CLIArgView {
                arg_name: arg_name@,
                arg_short_name: match arg_short_name {
                    Some(s) => Some(s@),
                    None => None,
                },
                arg_type,
                arg_action,
                arg_value: Seq::<char>::empty(),
            }),
    {
        CLIArg {
            arg_name: arg_name.to_owned(),
            arg_short_name: match arg_short_name {
                Some(s) => Some(s.to_owned()),
                None => None,
            },
            arg_type,
            arg_action,
            arg_value: String::new(),
        }
    }
}

/// Whether `i` is the first argument of `args` that is named `name`.
pub open spec fn spec_first_arg(args: Seq<CLIArgView>, name: Seq<char>, i: int) -> bool {
    &&& 0 <= i < args.len()
    &&& args[i].arg_name == name
    &&& forall|j: int| 0 <= j < i ==> (#[trigger] args[j]).arg_name != name
}

/// Whether an argument named `name` is declared.
pub open spec fn spec_declared(args: Seq<CLIArgView>, name: Seq<char>) -> bool {
    exists|i: int| spec_first_arg(args, name, i)
}

/// The place of the argument named `name`.
pub open spec fn spec_arg_index(args: Seq<CLIArgView>, name: Seq<char>) -> int {
    choose|i: int| spec_first_arg(args, name, i)
}

/// Whether no two arguments of `args` have the same name.
pub open spec fn spec_distinct_args(args: Seq<CLIArgView>) -> bool {
    forall|i: int, j: int|
        0 <= i < j < args.len() ==> (#[trigger] args[i]).arg_name != (#[trigger] args[j]).arg_name
}

/// `args` with the value of the argument at `i` set to `value`.
pub open spec fn spec_with_value(args: Seq<CLIArgView>, i: int, value: Seq<char>) -> Seq<
    CLIArgView,
> {
    args.update(i, CLIArgView { arg_value: value, ..args[i] })
}

/// What one word of the command line does to the arguments.
///
/// A word with an `=` names an argument in front of it, without the dashes
/// around the name, and gives its value behind it. A word without names an
/// argument that becomes "true" or "false" by its action.
pub open spec fn spec_apply_word(args: Seq<CLIArgView>, word: Seq<char>) -> Result<
    Seq<CLIArgView>,
    CLIError,
> {
    if spec_has_eq(word) {
        let name = spec_trim_dashes(word.subrange(0, spec_eq_index(word)));
        let value = word.subrange(spec_eq_index(word) + 1, word.len() as int);
        if spec_declared(args, name) {
            Ok(spec_with_value(args, spec_arg_index(args, name), value))
        } else {
            Err(CLIError::Undeclared)
        }
    } else {
        let name = spec_trim_dashes(word);
        if spec_declared(args, name) {
            let i = spec_arg_index(args, name);
            match args[i].arg_action {
                CLIArgAction::Store => Err(CLIError::MissingValue),
                CLIArgAction::StoreTrue => Ok(spec_with_value(args, i, "true"@)),
                CLIArgAction::StoreFalse => Ok(spec_with_value(args, i, "false"@)),
            }
        } else {
            Err(CLIError::Undeclared)
        }
    }
}

/// What the words of a command line do to the arguments, one after the
/// other: the arguments after the last word that could be applied, and the
/// error of the first word that could not.
pub open spec fn spec_apply_words(args: Seq<CLIArgView>, words: Seq<Seq<char>>) -> (
    Seq<CLIArgView>,
    Option<CLIError>,
)
    decreases words.len(),
{
    if words.len() == 0 {
        (args, None)
    } else {
        let front = spec_apply_words(args, words.drop_last());
        if front.1.is_some() {
            front
        } else {
            match spec_apply_word(front.0, words.last()) {
                Ok(after) => (after, None),
                Err(e) => (front.0, Some(e)),
            }
        }
    }
}

/// Whether `value`, in lower case, is one of the words that stand for true.
pub open spec fn spec_is_truthy(lower: Seq<char>) -> bool {
    lower == "1"@ || lower == "true"@ || lower == "yes"@ || lower == "on"@ || lower == "t"@
        || lower == "y"@
}

/// The declared arguments of a program, with their values.
#[derive(Clone, Debug)]
pub struct CLIParser {
    args: Vec<CLIArg>,
}

impl View for CLIParser {
    type V = Seq<CLIArgView>;

    closed spec fn view(&self) -> Seq<CLIArgView> {
        self.args@.map_values(|a: CLIArg| a@)
    }
}

impl CLIParser {
    /// Whether every argument is declared once.
    pub open spec fn well_formed(&self) -> bool {
        spec_distinct_args(self@)
    }

    /// A parser without arguments.
    pub fn new() -> (p: CLIParser)
        ensures
            p.well_formed(),
            p@ == Seq::<CLIArgView>::empty(),
    {
        let p = CLIParser { args: Vec::new() };
        assert(p@ =~= Seq::<CLIArgView>::empty());
        p
    }

    /// The place of the argument named `name`.
    fn index_of(&self, name: &str) -> (r: Option<usize>)
        ensures
            r.is_some() <==> spec_declared(self@, name@),
            r.is_some() ==> r.unwrap() == spec_arg_index(self@, name@) && spec_first_arg(
                self@,
                name@,
                r.unwrap() as int,
            ) && r.unwrap() < self.args@.len(),
            r.is_none() ==> forall|j: int|
                0 <= j < self@.len() ==> (#[trigger] self@[j]).arg_name != name@,
    {
        let wanted: String = name.to_owned();
        let mut i: usize = 0;
        while i < self.args.len()
            invariant
                0 <= i <= self.args@.len(),
                wanted@ == name@,
                forall|j: int| 0 <= j < i ==> (#[trigger] self@[j]).arg_name != name@,
            decreases self.args@.len() - i,
        {
            if self.args[i].arg_name == wanted {
                assert(spec_first_arg(self@, name@, i as int));
                return Some(i);
            }
            i = i + 1;
        }
        None
    }

    /// Declares an argument. A name can be declared once.
    pub fn add_argument(
        &mut self,
        arg_name: &str,
        arg_short_name: Option<&str>,
        arg_type: CLIArgType,
        arg_action: CLIArgAction,
    ) -> (r: Result<(), CLIError>)
        ensures
            spec_declared(old(self)@, arg_name@) ==> r == Err::<(), CLIError>(
                CLIError::AlreadyDeclared,
            ) && final(self)@ == old(self)@,
            !spec_declared(old(self)@, arg_name@) ==> r.is_ok() && final(self)@ == old(self)@.push(
                CLIArgView {
                    arg_name: arg_name@,
                    arg_short_name: match arg_short_name {
                        Some(s) => Some(s@),
                        None => None,
                    },
                    arg_type,
                    arg_action,
                    arg_value: Seq::<char>::empty(),
                },
            ),
            old(self).well_formed() ==> final(self).well_formed(),
    {
        if self.index_of(arg_name).is_some() {
            return Err(CLIError::AlreadyDeclared);
        }
        let ghost before = self@;
        let arg: CLIArg = CLIArg::new(arg_name, arg_short_name, arg_type, arg_action);
        self.args.push(arg);
        assert(self@ =~= before.push(arg@));
        Ok(())
    }

    /// Sets the value of the argument at `i`.
    fn set_value(&mut self, i: usize, value: String)
        requires
            i < old(self)@.len(),
        ensures
            final(self)@ == spec_with_value(old(self)@, i as int, value@),
            old(self).well_formed() ==> final(self).well_formed(),
    {
        let ghost before = self@;
        let arg: CLIArg = CLIArg {
            arg_name: self.args[i].arg_name.clone(),
            arg_short_name: match &self.args[i].arg_short_name {
                Some(s) => Some(s.clone()),
                None => None,
            },
            arg_type: self.args[i].arg_type,
            arg_action: self.args[i].arg_action,
            arg_value: value,
        };
        self.args.set(i, arg);
        assert(self@ =~= spec_with_value(before, i as int, value@));
        assert forall|a: int, b: int|
            spec_distinct_args(before) && 0 <= a < b < self@.len() implies (#[trigger] self@[a]).arg_name
            != (#[trigger] self@[b]).arg_name by {
            assert(before[a].arg_name != before[b].arg_name);
        }
    }

    /// Applies one word of the command line.
    pub fn parse_word(&mut self, word: &str) -> (r: Result<(), CLIError>)
        ensures
            match r {
                Ok(_) => spec_apply_word(old(self)@, word@) == Ok::<Seq<CLIArgView>, CLIError>(
                    final(self)@,
                ),
                Err(e) => spec_apply_word(old(self)@, word@) == Err::<Seq<CLIArgView>, CLIError>(e)
                    && final(self)@ == old(self)@,
            },
            old(self).well_formed() ==> final(self).well_formed(),
    {
        match str_split_once_eq(word) {
            Some(arg_split) => {
                let arg_name: &str = str_trim_dashes(arg_split.0);
                let i: usize = match self.index_of(arg_name) {
                    Some(i) => i,
                    None => { return Err(CLIError::Undeclared); },
                };
                self.set_value(i, arg_split.1.to_owned());
                Ok(())
            },
            None => {
                let arg_name: &str = str_trim_dashes(word);
                let i: usize = match self.index_of(arg_name) {
                    Some(i) => i,
                    None => { return Err(CLIError::Undeclared); },
                };
                assert(self@[i as int].arg_action == self.args@[i as int].arg_action);
                match self.args[i].arg_action {
                    CLIArgAction::Store => Err(CLIError::MissingValue),
                    CLIArgAction::StoreTrue => {
                        self.set_value(i, "true".to_owned());
                        Ok(())
                    },
                    CLIArgAction::StoreFalse => {
                        self.set_value(i, "false".to_owned());
                        Ok(())
                    },
                }
            },
        }
    }

    /// Applies the words of a command line, the name of the program first,
    /// which is passed over. The first word that cannot be applied ends the
    /// work; what the words in front of it have set stays set.
    pub fn parse(&mut self, args: &Vec<String>) -> (r: Result<(), CLIError>)
        ensures
            args@.len() <= 1 ==> r.is_ok() && final(self)@ == old(self)@,
            args@.len() > 1 ==> final(self)@ == spec_apply_words(
                old(self)@,
                spec_words(args@).subrange(1, args@.len() as int),
            ).0 && (match r {
                Ok(_) => None::<CLIError>,
                Err(e) => Some(e),
            }) == spec_apply_words(
                old(self)@,
                spec_words(args@).subrange(1, args@.len() as int),
            ).1,
            old(self).well_formed() ==> final(self).well_formed(),
    {
        if args.len() <= 1 {
            return Ok(());
        }
        let ghost words = spec_words(args@).subrange(1, args@.len() as int);
        let mut k: usize = 1;
        proof {
            assert(words.subrange(0, 0) =~= Seq::<Seq<char>>::empty());
        }
        while k < args.len()
            invariant
                1 <= k <= args@.len(),
                words == spec_words(args@).subrange(1, args@.len() as int),
                spec_apply_words(old(self)@, words.subrange(0, k - 1)) == (self@, None::<CLIError>),
                old(self).well_formed() ==> self.well_formed(),
            decreases args@.len() - k,
        {
            proof {
                let longer = words.subrange(0, k as int);
                assert(longer.drop_last() =~= words.subrange(0, k - 1));
                assert(longer.last() == args@[k as int]@);
            }
            match self.parse_word(args[k].as_str()) {
                Ok(_) => {},
                Err(e) => {
                    proof {
                        lemma_words_stop(old(self)@, words, k as int);
                    }
                    return Err(e);
                },
            }
            k = k + 1;
        }
        proof {
            assert(words.subrange(0, k - 1) =~= words);
        }
        Ok(())
    }

    /// The value of the argument `arg_name` as a number.
    pub fn get_argument_as_i64(&self, arg_name: &str) -> (r: Result<i64, CLIError>)
        ensures
            r == (if !spec_declared(self@, arg_name@) {
                Err::<i64, CLIError>(CLIError::Undeclared)
            } else {
                spec_as_i64(spec_parse_i64(self@[spec_arg_index(self@, arg_name@)].arg_value))
            }),
    {
        let i: usize = match self.index_of(arg_name) {
            Some(i) => i,
            None => { return Err(CLIError::Undeclared); },
        };
        assert(self@[i as int].arg_value == self.args@[i as int].arg_value@);
        number_or_error(str_parse_i64(self.args[i].arg_value.as_str()))
    }

    /// Whether the value of the argument `arg_name` stands for true: in
    /// lower case it is one of `1`, `true`, `yes`, `on`, `t` and `y`.
    pub fn get_argument_as_bool(&self, arg_name: &str) -> (r: Result<bool, CLIError>)
        ensures
            r == (if !spec_declared(self@, arg_name@) {
                Err::<bool, CLIError>(CLIError::Undeclared)
            } else {
                Ok::<bool, CLIError>(
                    spec_is_truthy(
                        spec_unicode_lower(self@[spec_arg_index(self@, arg_name@)].arg_value),
                    ),
                )
            }),
    {
        let i: usize = match self.index_of(arg_name) {
            Some(i) => i,
            None => { return Err(CLIError::Undeclared); },
        };
        assert(self@[i as int].arg_value == self.args@[i as int].arg_value@);
        let lower: String = str_to_lowercase(self.args[i].arg_value.as_str());
        Ok(is_truthy(&lower))
    }

    /// The value of the argument `arg_name` as it is.
    pub fn get_argument_as_string(&self, arg_name: &str) -> (r: Result<String, CLIError>)
        ensures
            match r {
                Ok(value) => spec_declared(self@, arg_name@) && value@ == self@[spec_arg_index(
                    self@,
                    arg_name@,
                )].arg_value,
                Err(e) => !spec_declared(self@, arg_name@) && e == CLIError::Undeclared,
            },
    {
        let i: usize = match self.index_of(arg_name) {
            Some(i) => i,
            None => { return Err(CLIError::Undeclared); },
        };
        assert(self@[i as int].arg_value == self.args@[i as int].arg_value@);
        Ok(self.args[i].arg_value.clone())
    }
}

/// The texts of the words of a command line.
pub open spec fn spec_words(args: Seq<String>) -> Seq<Seq<char>> {
    args.map_values(|s: String| s@)
}

/// The number that was read, or the error that stands for none.
pub open spec fn spec_as_i64(parsed: Option<i64>) -> Result<i64, CLIError> {
    match parsed {
        Some(n) => Ok(n),
        None => Err(CLIError::NotANumber),
    }
}

/// The number that was read from a value, or the error that stands for none.
pub fn number_or_error(parsed: Option<i64>) -> (r: Result<i64, CLIError>)
    ensures
        r == spec_as_i64(parsed),
{
    match parsed {
        Some(n) => Ok(n),
        None => Err(CLIError::NotANumber),
    }
}

/// Whether `lower`, a value in lower case, is one of the words that stand
/// for true.
pub fn is_truthy(lower: &String) -> (b: bool)
    ensures
        b == spec_is_truthy(lower@),
{
    let one: String = "1".to_owned();
    let yes_long: String = "true".to_owned();
    let yes: String = "yes".to_owned();
    let on: String = "on".to_owned();
    let t: String = "t".to_owned();
    let y: String = "y".to_owned();
    *lower == one || *lower == yes_long || *lower == yes || *lower == on || *lower == t || *lower
        == y
}

/// Words behind the first word that cannot be applied change nothing.
pub proof fn lemma_words_stop(args: Seq<CLIArgView>, words: Seq<Seq<char>>, upto: int)
    requires
        0 <= upto <= words.len(),
        spec_apply_words(args, words.subrange(0, upto)).1.is_some(),
    ensures
        spec_apply_words(args, words) == spec_apply_words(args, words.subrange(0, upto)),
    decreases words.len() - upto,
{
    if upto == words.len() {
        assert(words.subrange(0, upto) =~= words);
    } else {
        let longer = words.subrange(0, upto + 1);
        assert(longer.drop_last() =~= words.subrange(0, upto));
        lemma_words_stop(args, words, upto + 1);
    }
}

} // verus!
