//! Work functions with their bound arguments, behind one interface.
use vstd::prelude::*;

verus! {

/// Work that a job runs: invoked with `call`, identified by `name`.
pub trait Callable {
    /// The name given to the work.
    spec fn spec_name(&self) -> Seq<char>;

    /// Runs the work. The result is reserved for the work's own outcome and
    /// is `None` for now.
    fn call(&self) -> (r: Option<bool>)
        ensures
            r is None,
    ;

    fn name(&self) -> (r: &str)
        ensures
            r@ == self.spec_name(),
    ;
}

/// A named work function taking no parameters.
pub struct UnitToUnit<F>
where
    F: Fn(),
{
    name: String,
    work: F,
}

impl<F> UnitToUnit<F>
where
    F: Fn(),
{
    #[verifier::type_invariant]
    spec fn inv(&self) -> bool {
        self.work.requires(())
    }

    pub fn new(name: &str, work: F) -> (r: Self)
        requires
            work.requires(()),
        ensures
            r.spec_name() == name@,
    {
        UnitToUnit { name: name.to_owned(), work }
    }
}

impl<F> Callable for UnitToUnit<F>
where
    F: Fn(),
{
    closed spec fn spec_name(&self) -> Seq<char> {
        self.name@
    }

    fn call(&self) -> (r: Option<bool>) {
        proof {
            use_type_invariant(self);
        }
        (self.work)();
        None
    }

    fn name(&self) -> (r: &str) {
        self.name.as_str()
    }
}

/// A named work function taking one parameter.
pub struct OneToUnit<T, F>
where
    T: Clone,
    F: Fn(T),
{
    name: String,
    work: F,
    arg: T,
}

impl<T, F> OneToUnit<T, F>
where
    T: Clone,
    F: Fn(T),
{
    #[verifier::type_invariant]
    spec fn inv(&self) -> bool {
        forall|a0: T| #[trigger] self.work.requires((a0,))
    }

    pub fn new(name: &str, work: F, arg: T) -> (r: Self)
        requires
            forall|a0: T| #[trigger] work.requires((a0,)),
        ensures
            r.spec_name() == name@,
    {
        OneToUnit { name: name.to_owned(), work, arg }
    }
}

impl<T, F> Callable for OneToUnit<T, F>
where
    T: Clone,
    F: Fn(T),
{
    closed spec fn spec_name(&self) -> Seq<char> {
        self.name@
    }

    fn call(&self) -> (r: Option<bool>) {
        proof {
            use_type_invariant(self);
        }
        (self.work)(self.arg.clone());
        None
    }

    fn name(&self) -> (r: &str) {
        self.name.as_str()
    }
}

/// A named work function taking two parameters.
pub struct TwoToUnit<T, U, F>
where
    T: Clone,
    U: Clone,
    F: Fn(T, U),
{
    name: String,
    work: F,
    arg_one: T,
    arg_two: U,
}

impl<T, U, F> TwoToUnit<T, U, F>
where
    T: Clone,
    U: Clone,
    F: Fn(T, U),
{
    #[verifier::type_invariant]
    spec fn inv(&self) -> bool {
        forall|a0: T, a1: U| #[trigger] self.work.requires((a0, a1))
    }

    pub fn new(name: &str, work: F, arg_one: T, arg_two: U) -> (r: Self)
        requires
            forall|a0: T, a1: U| #[trigger] work.requires((a0, a1)),
        ensures
            r.spec_name() == name@,
    {
        TwoToUnit { name: name.to_owned(), work, arg_one, arg_two }
    }
}

impl<T, U, F> Callable for TwoToUnit<T, U, F>
where
    T: Clone,
    U: Clone,
    F: Fn(T, U),
{
    closed spec fn spec_name(&self) -> Seq<char> {
        self.name@
    }

    fn call(&self) -> (r: Option<bool>) {
        proof {
            use_type_invariant(self);
        }
        (self.work)(self.arg_one.clone(), self.arg_two.clone());
        None
    }

    fn name(&self) -> (r: &str) {
        self.name.as_str()
    }
}

/// A named work function taking three parameters.
pub struct ThreeToUnit<T, U, V, F>
where
    T: Clone,
    U: Clone,
    V: Clone,
    F: Fn(T, U, V),
{
    name: String,
    work: F,
    arg_one: T,
    arg_two: U,
    arg_three: V,
}

impl<T, U, V, F> ThreeToUnit<T, U, V, F>
where
    T: Clone,
    U: Clone,
    V: Clone,
    F: Fn(T, U, V),
{
    #[verifier::type_invariant]
    spec fn inv(&self) -> bool {
        forall|a0: T, a1: U, a2: V| #[trigger] self.work.requires((a0, a1, a2))
    }

    pub fn new(name: &str, work: F, arg_one: T, arg_two: U, arg_three: V) -> (r: Self)
        requires
            forall|a0: T, a1: U, a2: V| #[trigger] work.requires((a0, a1, a2)),
        ensures
            r.spec_name() == name@,
    {
        ThreeToUnit { name: name.to_owned(), work, arg_one, arg_two, arg_three }
    }
}

impl<T, U, V, F> Callable for ThreeToUnit<T, U, V, F>
where
    T: Clone,
    U: Clone,
    V: Clone,
    F: Fn(T, U, V),
{
    closed spec fn spec_name(&self) -> Seq<char> {
        self.name@
    }

    fn call(&self) -> (r: Option<bool>) {
        proof {
            use_type_invariant(self);
        }
        (self.work)(self.arg_one.clone(), self.arg_two.clone(), self.arg_three.clone());
        None
    }

    fn name(&self) -> (r: &str) {
        self.name.as_str()
    }
}

/// A named work function taking four parameters.
pub struct FourToUnit<T, U, V, W, F>
where
    T: Clone,
    U: Clone,
    V: Clone,
    W: Clone,
    F: Fn(T, U, V, W),
{
    name: String,
    work: F,
    arg_one: T,
    arg_two: U,
    arg_three: V,
    arg_four: W,
}

impl<T, U, V, W, F> FourToUnit<T, U, V, W, F>
where
    T: Clone,
    U: Clone,
    V: Clone,
    W: Clone,
    F: Fn(T, U, V, W),
{
    #[verifier::type_invariant]
    spec fn inv(&self) -> bool {
        forall|a0: T, a1: U, a2: V, a3: W| #[trigger] self.work.requires((a0, a1, a2, a3))
    }

    pub fn new(name: &str, work: F, arg_one: T, arg_two: U, arg_three: V, arg_four: W) -> (r: Self)
        requires
            forall|a0: T, a1: U, a2: V, a3: W| #[trigger] work.requires((a0, a1, a2, a3)),
        ensures
            r.spec_name() == name@,
    {
        FourToUnit { name: name.to_owned(), work, arg_one, arg_two, arg_three, arg_four }
    }
}

impl<T, U, V, W, F> Callable for FourToUnit<T, U, V, W, F>
where
    T: Clone,
    U: Clone,
    V: Clone,
    W: Clone,
    F: Fn(T, U, V, W),
{
    closed spec fn spec_name(&self) -> Seq<char> {
        self.name@
    }

    fn call(&self) -> (r: Option<bool>) {
        proof {
            use_type_invariant(self);
        }
        (self.work)(self.arg_one.clone(), self.arg_two.clone(), self.arg_three.clone(), self.arg_four.clone());
        None
    }

    fn name(&self) -> (r: &str) {
        self.name.as_str()
    }
}

/// A named work function taking five parameters.
pub struct FiveToUnit<T, U, V, W, X, F>
where
    T: Clone,
    U: Clone,
    V: Clone,
    W: Clone,
    X: Clone,
    F: Fn(T, U, V, W, X),
{
    name: String,
    work: F,
    arg_one: T,
    arg_two: U,
    arg_three: V,
    arg_four: W,
    arg_five: X,
}

impl<T, U, V, W, X, F> FiveToUnit<T, U, V, W, X, F>
where
    T: Clone,
    U: Clone,
    V: Clone,
    W: Clone,
    X: Clone,
    F: Fn(T, U, V, W, X),
{
    #[verifier::type_invariant]
    spec fn inv(&self) -> bool {
        forall|a0: T, a1: U, a2: V, a3: W, a4: X| #[trigger] self.work.requires((a0, a1, a2, a3, a4))
    }

    pub fn new(name: &str, work: F, arg_one: T, arg_two: U, arg_three: V, arg_four: W, arg_five: X) -> (r: Self)
        requires
            forall|a0: T, a1: U, a2: V, a3: W, a4: X| #[trigger] work.requires((a0, a1, a2, a3, a4)),
        ensures
            r.spec_name() == name@,
    {
        FiveToUnit { name: name.to_owned(), work, arg_one, arg_two, arg_three, arg_four, arg_five }
    }
}

impl<T, U, V, W, X, F> Callable for FiveToUnit<T, U, V, W, X, F>
where
    T: Clone,
    U: Clone,
    V: Clone,
    W: Clone,
    X: Clone,
    F: Fn(T, U, V, W, X),
{
    closed spec fn spec_name(&self) -> Seq<char> {
        self.name@
    }

    fn call(&self) -> (r: Option<bool>) {
        proof {
            use_type_invariant(self);
        }
        (self.work)(self.arg_one.clone(), self.arg_two.clone(), self.arg_three.clone(), self.arg_four.clone(), self.arg_five.clone());
        None
    }

    fn name(&self) -> (r: &str) {
        self.name.as_str()
    }
}

/// A named work function taking six parameters.
pub struct SixToUnit<T, U, V, W, X, Y, F>
where
    T: Clone,
    U: Clone,
    V: Clone,
    W: Clone,
    X: Clone,
    Y: Clone,
    F: Fn(T, U, V, W, X, Y),
{
    name: String,
    work: F,
    arg_one: T,
    arg_two: U,
    arg_three: V,
    arg_four: W,
    arg_five: X,
    arg_six: Y,
}

impl<T, U, V, W, X, Y, F> SixToUnit<T, U, V, W, X, Y, F>
where
    T: Clone,
    U: Clone,
    V: Clone,
    W: Clone,
    X: Clone,
    Y: Clone,
    F: Fn(T, U, V, W, X, Y),
{
    #[verifier::type_invariant]
    spec fn inv(&self) -> bool {
        forall|a0: T, a1: U, a2: V, a3: W, a4: X, a5: Y| #[trigger] self.work.requires((a0, a1, a2, a3, a4, a5))
    }

    pub fn new(name: &str, work: F, arg_one: T, arg_two: U, arg_three: V, arg_four: W, arg_five: X, arg_six: Y) -> (r: Self)
        requires
            forall|a0: T, a1: U, a2: V, a3: W, a4: X, a5: Y| #[trigger] work.requires((a0, a1, a2, a3, a4, a5)),
        ensures
            r.spec_name() == name@,
    {
        SixToUnit { name: name.to_owned(), work, arg_one, arg_two, arg_three, arg_four, arg_five, arg_six }
    }
}

impl<T, U, V, W, X, Y, F> Callable for SixToUnit<T, U, V, W, X, Y, F>
where
    T: Clone,
    U: Clone,
    V: Clone,
    W: Clone,
    X: Clone,
    Y: Clone,
    F: Fn(T, U, V, W, X, Y),
{
    closed spec fn spec_name(&self) -> Seq<char> {
        self.name@
    }

    fn call(&self) -> (r: Option<bool>) {
        proof {
            use_type_invariant(self);
        }
        (self.work)(self.arg_one.clone(), self.arg_two.clone(), self.arg_three.clone(), self.arg_four.clone(), self.arg_five.clone(), self.arg_six.clone());
        None
    }

    fn name(&self) -> (r: &str) {
        self.name.as_str()
    }
}

} // verus!
