//! Values that can stand as one argument, or as a list of arguments.

use vstd::prelude::*;

verus! {

/// A value that stands for one argument: its text.
pub trait AsArg {
    /// The text of the argument.
    spec fn arg_text(&self) -> Seq<char>;

    /// The argument as an owned string.
    fn to_arg(&self) -> (r: String)
        ensures
            r@ == self.arg_text(),
    ;
}

impl AsArg for str {
    open spec fn arg_text(&self) -> Seq<char> {
        self@
    }

    fn to_arg(&self) -> (r: String) {
        self.to_owned()
    }
}

impl AsArg for String {
    open spec fn arg_text(&self) -> Seq<char> {
        self@
    }

    fn to_arg(&self) -> (r: String) {
        self.clone()
    }
}

impl<'a, T: AsArg + ?Sized> AsArg for &'a T {
    open spec fn arg_text(&self) -> Seq<char> {
        (**self).arg_text()
    }

    fn to_arg(&self) -> (r: String) {
        (**self).to_arg()
    }
}

/// A value that stands for a list of arguments, in order.
pub trait AsArgs {
    /// The texts of the arguments.
    spec fn args_text(&self) -> Seq<Seq<char>>;

    /// The arguments as owned strings.
    fn to_args(&self) -> (r: Vec<String>)
        ensures
            r@.len() == self.args_text().len(),
            forall|i: int| 0 <= i < r@.len() ==> #[trigger] r@[i]@ == self.args_text()[i],
    ;
}

impl<T: AsArg> AsArgs for [T] {
    open spec fn args_text(&self) -> Seq<Seq<char>> {
        Seq::new(self@.len(), |i: int| self@[i].arg_text())
    }

    fn to_args(&self) -> (r: Vec<String>) {
        let mut r: Vec<String> = Vec::new();
        let mut i: usize = 0;
        while i < self.len()
            invariant
                i <= self@.len(),
                r@.len() == i,
                forall|j: int| 0 <= j < i ==> #[trigger] r@[j]@ == self@[j].arg_text(),
            decreases self@.len() - i,
        {
            r.push(self[i].to_arg());
            i += 1;
        }
        r
    }
}

impl<T: AsArg, const N: usize> AsArgs for [T; N] {
    open spec fn args_text(&self) -> Seq<Seq<char>> {
        Seq::new(self@.len(), |i: int| self@[i].arg_text())
    }

    fn to_args(&self) -> (r: Vec<String>) {
        self.as_slice().to_args()
    }
}

impl<T: AsArg> AsArgs for Vec<T> {
    open spec fn args_text(&self) -> Seq<Seq<char>> {
        Seq::new(self@.len(), |i: int| self@[i].arg_text())
    }

    fn to_args(&self) -> (r: Vec<String>) {
        self.as_slice().to_args()
    }
}

impl<T: AsArg> AsArgs for Option<T> {
    open spec fn args_text(&self) -> Seq<Seq<char>> {
        match self {
            Option::Some(t) => seq![t.arg_text()],
            Option::None => Seq::empty(),
        }
    }

    fn to_args(&self) -> (r: Vec<String>) {
        let mut r: Vec<String> = Vec::new();
        match self {
            Some(t) => r.push(t.to_arg()),
            None => {},
        }
        r
    }
}

impl<'a, A: AsArgs + ?Sized> AsArgs for &'a A {
    open spec fn args_text(&self) -> Seq<Seq<char>> {
        (**self).args_text()
    }

    fn to_args(&self) -> (r: Vec<String>) {
        (**self).to_args()
    }
}


/// An argument built from pieces, appended in order.
#[derive(Debug, Clone)]
pub struct ArgString {
    text: String,
}

impl View for ArgString {
    type V = Seq<char>;

    closed spec fn view(&self) -> Seq<char> {
        self.text@
    }
}

impl ArgString {
    /// An empty argument.
    pub fn new() -> (r: ArgString)
        ensures
            r@ == Seq::<char>::empty(),
    {
        ArgString { text: String::new() }
    }

    /// Appends a piece.
    pub fn push<S: AsArg>(&mut self, piece: S)
        ensures
            final(self)@ == old(self)@ + piece.arg_text(),
    {
        let p = piece.to_arg();
        self.text.append(p.as_str());
    }

    /// The argument built so far.
    pub fn as_str(&self) -> (r: &str)
        ensures
            r@ == self@,
    {
        self.text.as_str()
    }
}

impl AsArg for ArgString {
    open spec fn arg_text(&self) -> Seq<char> {
        self@
    }

    fn to_arg(&self) -> (r: String) {
        self.text.clone()
    }
}

} // verus!
