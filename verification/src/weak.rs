use vstd::prelude::*;

verus! {

/// Types which can be downgraded to their weak form, such as `std::rc::Rc`
/// and `std::sync::Arc`.  The generated prelude of a weak-style directive
/// applies `downgrade` once, at closure construction; the weak handle must
/// not, by itself, keep the referent alive.
pub trait Downgrade: Sized {
    /// The weak form of Self.
    type Target: Upgrade<Target = Self>;

    /// Downgrade Self to its weak form.
    fn downgrade(this: &Self) -> Self::Target;
}

/// Types which can be upgraded from their weak form.  The generated upgrade
/// prologue applies `upgrade` on every call of the closure; it yields
/// nothing once the referent has been deallocated.
pub trait Upgrade {
    /// The strong form of Self.
    type Target;

    /// Upgrade Self to its strong form.
    fn upgrade(&self) -> Option<Self::Target>;
}

/// A non-owning handle to an `Rc` allocation.  The handle type of std takes
/// an allocator parameter that cannot be named here, so it is held inside a
/// struct of the library's own.
#[verifier::external_body]
#[verifier::reject_recursive_types(T)]
pub struct RcWeak<T> {
    inner: std::rc::Weak<T>,
}

/// A non-owning handle to an `Arc` allocation.
#[verifier::external_body]
#[verifier::reject_recursive_types(T)]
pub struct ArcWeak<T> {
    inner: std::sync::Weak<T>,
}

/// Relies on std::rc::Rc::downgrade: makes a non-owning handle to the
/// allocation behind `this`.
#[verifier::external_body]
fn rc_downgrade<T>(this: &std::rc::Rc<T>) -> RcWeak<T> {
    RcWeak { inner: std::rc::Rc::downgrade(this) }
}

/// Relies on std::rc::Weak::upgrade: recovers an owning handle while the
/// referent is still alive, and yields nothing after it is dropped.
#[verifier::external_body]
fn rc_upgrade<T>(this: &RcWeak<T>) -> Option<std::rc::Rc<T>> {
    this.inner.upgrade()
}

/// Relies on std::sync::Arc::downgrade: makes a non-owning handle to the
/// allocation behind `this`.
#[verifier::external_body]
fn arc_downgrade<T>(this: &std::sync::Arc<T>) -> ArcWeak<T> {
    ArcWeak { inner: std::sync::Arc::downgrade(this) }
}

/// Relies on std::sync::Weak::upgrade: recovers an owning handle while the
/// referent is still alive, and yields nothing after it is dropped.
#[verifier::external_body]
fn arc_upgrade<T>(this: &ArcWeak<T>) -> Option<std::sync::Arc<T>> {
    this.inner.upgrade()
}

impl<T> Downgrade for std::rc::Rc<T> {
    type Target = RcWeak<T>;

    fn downgrade(this: &Self) -> Self::Target {
        rc_downgrade(this)
    }
}

impl<T> Upgrade for RcWeak<T> {
    type Target = std::rc::Rc<T>;

    fn upgrade(&self) -> Option<Self::Target> {
        rc_upgrade(self)
    }
}

impl<T> Downgrade for std::sync::Arc<T> {
    type Target = ArcWeak<T>;

    fn downgrade(this: &Self) -> Self::Target {
        arc_downgrade(this)
    }
}

impl<T> Upgrade for ArcWeak<T> {
    type Target = std::sync::Arc<T>;

    fn upgrade(&self) -> Option<Self::Target> {
        arc_upgrade(self)
    }
}

} // verus!
