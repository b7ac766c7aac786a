//! Mnemosyne error handling: the problems that semantic analysis reports,
//! and unwrapping of values whose absence would be an internal compiler
//! error.
use vstd::prelude::*;
use vstd::string::StringExecFns;
use crate::position::Positional;

verus! {

/// What semantic analysis can find wrong with a program.
#[derive(Debug)]
pub enum Problem {
    /// A name is referred to where no enclosing scope binds it.
    UndefinedName(String),
    /// A function is applied where no enclosing scope binds its name.
    UndefinedFunction(String),
    /// An equation binds fewer arguments than its function's signature
    /// declares. This would be a curried definition, which is not supported.
    /// The problem holds both counts, and the signature and the equation as
    /// they are rendered.
    TooFewBindings { arity: usize, bound: usize, signature: String, function: String },
    /// An equation binds more arguments than its function's signature
    /// declares. The problem holds both counts, and the signature and the
    /// equation as they are rendered.
    TooManyBindings { arity: usize, bound: usize, signature: String, function: String },
}

/// What a `Problem` stands for in specifications.
pub enum ProblemModel {
    UndefinedName(Seq<char>),
    UndefinedFunction(Seq<char>),
    TooFewBindings { arity: int, bound: int, signature: Seq<char>, function: Seq<char> },
    TooManyBindings { arity: int, bound: int, signature: Seq<char>, function: Seq<char> },
}

impl View for Problem {
    type V = ProblemModel;

    open spec fn view(&self) -> ProblemModel {
        match self {
            Problem::UndefinedName(name) => ProblemModel::UndefinedName(name@),
            Problem::UndefinedFunction(name) => ProblemModel::UndefinedFunction(name@),
            Problem::TooFewBindings { arity, bound, signature, function } =>
                ProblemModel::TooFewBindings {
                    arity: *arity as int,
                    bound: *bound as int,
                    signature: signature@,
                    function: function@,
                },
            Problem::TooManyBindings { arity, bound, signature, function } =>
                ProblemModel::TooManyBindings {
                    arity: *arity as int,
                    bound: *bound as int,
                    signature: signature@,
                    function: function@,
                },
        }
    }
}

/// The problems found in a program, each with the position it was found at,
/// in the order in which they were found.
pub type Errors = Vec<Positional<Problem>>;

/// What a pass over a program yields: its result, or the problems found.
pub type CompileResult<T> = Result<T, Errors>;

/// The models of a list of positioned problems.
pub open spec fn error_models(errs: Seq<Positional<Problem>>) -> Seq<Positional<ProblemModel>> {
    Seq::new(errs.len(), |i: int| errs[i]@)
}

/// The message of a problem.
pub open spec fn problem_text(p: ProblemModel) -> Seq<char> {
    match p {
        ProblemModel::UndefinedName(name) => "[error] undefined name "@ + name,
        ProblemModel::UndefinedFunction(name) => "Undefined function "@ + name,
        ProblemModel::TooFewBindings { arity, bound, signature, function } =>
            "[error] equation had fewer bindings than function arity\n [error] auto-currying is not currently implemented.\n signature: "@
            + signature + "\nfunction: "@ + function + "\n"@,
        ProblemModel::TooManyBindings { arity, bound, signature, function } =>
            "[error] equation bound too many arguments\n signature: "@ + signature
            + "\nfunction: "@ + function + "\n"@,
    }
}

/// The report of an internal compiler error.
pub open spec fn ice_text(msg: Seq<char>, versions: Seq<char>) -> Seq<char> {
    "[internal error] "@ + msg
        + "\n [internal error] Something has gone horribly wrong.\n [internal error] Please contact the Mnemosyne implementors.\n"@
        + versions
}

impl Problem {
    /// Renders the message of the problem.
    pub fn message(&self) -> (s: String)
        ensures
            s@ == problem_text(self@),
    {
        match self {
            Problem::UndefinedName(name) => {
                let mut s = String::from_str("[error] undefined name ");
                s.append(name.as_str());
                s
            },
            Problem::UndefinedFunction(name) => {
                let mut s = String::from_str("Undefined function ");
                s.append(name.as_str());
                s
            },
            Problem::TooFewBindings { signature, function, .. } => {
                let mut s = String::from_str(
                    "[error] equation had fewer bindings than function arity\n [error] auto-currying is not currently implemented.\n signature: ",
                );
                s.append(signature.as_str());
                s.append("\nfunction: ");
                s.append(function.as_str());
                s.append("\n");
                assert(s@ =~= problem_text(self@));
                s
            },
            Problem::TooManyBindings { signature, function, .. } => {
                let mut s = String::from_str(
                    "[error] equation bound too many arguments\n signature: ",
                );
                s.append(signature.as_str());
                s.append("\nfunction: ");
                s.append(function.as_str());
                s.append("\n");
                assert(s@ =~= problem_text(self@));
                s
            },
        }
    }
}

impl Clone for Problem {
    fn clone(&self) -> (r: Self)
        ensures
            r@ == self@,
    {
        match self {
            Problem::UndefinedName(name) => Problem::UndefinedName(name.clone()),
            Problem::UndefinedFunction(name) => Problem::UndefinedFunction(name.clone()),
            Problem::TooFewBindings { arity, bound, signature, function } =>
                Problem::TooFewBindings {
                    arity: *arity,
                    bound: *bound,
                    signature: signature.clone(),
                    function: function.clone(),
                },
            Problem::TooManyBindings { arity, bound, signature, function } =>
                Problem::TooManyBindings {
                    arity: *arity,
                    bound: *bound,
                    signature: signature.clone(),
                    function: function.clone(),
                },
        }
    }
}

/// Problems are equal iff they are of the same kind and hold the same
/// names, counts and texts.
impl PartialEq for Problem {
    fn eq(&self, other: &Problem) -> (r: bool) {
        match (self, other) {
            (Problem::UndefinedName(a), Problem::UndefinedName(b)) => *a == *b,
            (Problem::UndefinedFunction(a), Problem::UndefinedFunction(b)) => *a == *b,
            (
                Problem::TooFewBindings { arity: a1, bound: b1, signature: s1, function: f1 },
                Problem::TooFewBindings { arity: a2, bound: b2, signature: s2, function: f2 },
            ) => *a1 == *a2 && *b1 == *b2 && *s1 == *s2 && *f1 == *f2,
            (
                Problem::TooManyBindings { arity: a1, bound: b1, signature: s1, function: f1 },
                Problem::TooManyBindings { arity: a2, bound: b2, signature: s2, function: f2 },
            ) => *a1 == *a2 && *b1 == *b2 && *s1 == *s2 && *f1 == *f2,
            _ => false,
        }
    }
}

impl vstd::std_specs::cmp::PartialEqSpecImpl for Problem {
    open spec fn obeys_eq_spec() -> bool {
        true
    }

    open spec fn eq_spec(&self, other: &Problem) -> bool {
        self@ == other@
    }
}

impl Eq for Problem {

}

/// Renders a positioned problem as `<message> at line <row>, column <col>`.
pub fn render(error: &Positional<Problem>) -> (s: String)
    ensures
        s@ == problem_text(error.value@) + " at "@ + error.pos.text(),
{
    let positioned = Positional::from(error.pos, error.value.message());
    positioned.to_string()
}

/// Renders the report of an internal compiler error: the message, the
/// banner that asks to contact the implementors, and the versions of the
/// compiler's parts.
pub fn ice_report(msg: &str, versions: &str) -> (s: String)
    ensures
        s@ == ice_text(msg@, versions@),
{
    let mut s = String::from_str("[internal error] ");
    s.append(msg);
    s.append(
        "\n [internal error] Something has gone horribly wrong.\n [internal error] Please contact the Mnemosyne implementors.\n",
    );
    s.append(versions);
    s
}

/// Wraps Option/Result with an `expect_ice()` method.
///
/// The method yields the value of a `Some` or an `Ok`. The absence of the
/// value is an internal compiler error: the method is for values that are
/// known to be there.
pub trait ExpectICE<T>: Sized {
    /// Whether the value is there.
    spec fn expectable(&self) -> bool;

    /// The value that is there.
    spec fn expected(&self) -> T;

    fn expect_ice(self, msg: &str) -> (t: T)
        requires
            self.expectable(),
        ensures
            t == self.expected(),
    ;
}

impl<T> ExpectICE<T> for Option<T> {
    open spec fn expectable(&self) -> bool {
        self is Some
    }

    open spec fn expected(&self) -> T {
        self->0
    }

    /// Unwraps an option, yielding the content of a `Some`.
    #[inline]
    fn expect_ice(self, msg: &str) -> (t: T) {
        match self {
            Some(thing) => thing,
            None => vstd::pervasive::unreached(),
        }
    }
}

impl<T, E> ExpectICE<T> for Result<T, E> {
    open spec fn expectable(&self) -> bool {
        self is Ok
    }

    open spec fn expected(&self) -> T {
        self->Ok_0
    }

    /// Unwraps a result, yielding the content of an `Ok`.
    #[inline]
    fn expect_ice(self, msg: &str) -> (t: T) {
        match self {
            Ok(t) => t,
            Err(_) => vstd::pervasive::unreached(),
        }
    }
}

/// Wraps Option/Result with an `unwrap_ice()` method.
///
/// The method yields the value of a `Some` or an `Ok`. The absence of the
/// value is an internal compiler error: the method is for values that are
/// known to be there.
pub trait UnwrapICE<T>: Sized {
    /// Whether the value is there.
    spec fn unwrappable(&self) -> bool;

    /// The value that is there.
    spec fn unwrapped(&self) -> T;

    fn unwrap_ice(self) -> (t: T)
        requires
            self.unwrappable(),
        ensures
            t == self.unwrapped(),
    ;
}

impl<T> UnwrapICE<T> for Option<T> {
    open spec fn unwrappable(&self) -> bool {
        self is Some
    }

    open spec fn unwrapped(&self) -> T {
        self->0
    }

    /// Moves the value `v` out of the `Option<T>` if it is `Some(v)`.
    #[inline]
    fn unwrap_ice(self) -> (t: T) {
        match self {
            Some(thing) => thing,
            None => vstd::pervasive::unreached(),
        }
    }
}

impl<T, E> UnwrapICE<T> for Result<T, E> {
    open spec fn unwrappable(&self) -> bool {
        self is Ok
    }

    open spec fn unwrapped(&self) -> T {
        self->Ok_0
    }

    /// Unwraps a result, yielding the content of an `Ok`.
    #[inline]
    fn unwrap_ice(self) -> (t: T) {
        match self {
            Ok(t) => t,
            Err(_) => vstd::pervasive::unreached(),
        }
    }
}

} // verus!
