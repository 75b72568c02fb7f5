//! The driver registry: drivers in registration order, which is also the order in which they
//! are initialized and in which their post-init hooks run.

use vstd::prelude::*;

verus! {

/// A registered driver: its handle, an optional hook to run once every driver is up, and
/// the compatible name that diagnostics and init failures report.
pub struct DriverDescriptor<D, P> {
    pub device_driver: D,
    pub post_init_callback: Option<P>,
    pub compatible: &'static str,
}

/// Why a driver could not be registered.
#[derive(Clone, Copy, Debug, PartialEq, Eq, Structural)]
pub enum RegistryError {
    /// The registry already holds as many drivers as it was made for.
    Full,
}

/// The character of a decimal digit.
pub open spec fn digit_char(d: nat) -> char {
    if d == 0 { '0' }
    else if d == 1 { '1' }
    else if d == 2 { '2' }
    else if d == 3 { '3' }
    else if d == 4 { '4' }
    else if d == 5 { '5' }
    else if d == 6 { '6' }
    else if d == 7 { '7' }
    else if d == 8 { '8' }
    else { '9' }
}

/// The decimal representation of `n`, without leading zeros.
pub open spec fn decimal(n: nat) -> Seq<char>
    decreases n,
{
    if n < 10 {
        seq![digit_char(n)]
    } else {
        decimal(n / 10).push(digit_char(n % 10))
    }
}

/// The diagnostic line of the driver at (1-based) position `index`: `"<index>.<name>"`.
pub open spec fn diagnostic_line(index: nat, name: Seq<char>) -> Seq<char> {
    decimal(index) + seq!['.'] + name
}

/// Relies on `format!` with the `Display` impls of `usize` and `str`: `usize` prints in
/// decimal without leading zeros, `str` prints its characters unchanged.
#[verifier::external_body]
fn format_indexed_name(index: usize, name: &str) -> (r: String)
    ensures
        r@ == diagnostic_line(index as nat, name@),
{
    format!("{}.{}", index, name)
}

/// The indices `i < n` of the drivers in `ds` that have a post-init hook, in order.
pub open spec fn hook_indices<D, P>(ds: Seq<DriverDescriptor<D, P>>, n: nat) -> Seq<usize>
    decreases n,
{
    if n == 0 {
        seq![]
    } else if ds[n - 1].post_init_callback is Some {
        hook_indices(ds, (n - 1) as nat).push((n - 1) as usize)
    } else {
        hook_indices(ds, (n - 1) as nat)
    }
}

/// A fixed-capacity, ordered registry of drivers.
pub struct DriverManager<D, P> {
    descriptors: Vec<DriverDescriptor<D, P>>,
    capacity: usize,
}

impl<D, P> DriverManager<D, P> {
    pub closed spec fn drivers(&self) -> Seq<DriverDescriptor<D, P>> {
        self.descriptors@
    }

    pub closed spec fn capacity(&self) -> nat {
        self.capacity as nat
    }

    pub open spec fn wf(&self) -> bool {
        self.drivers().len() <= self.capacity()
    }

    /// An empty registry with room for `capacity` drivers.
    pub fn new(capacity: usize) -> (r: Self)
        ensures
            r.wf(),
            r.drivers() == Seq::<DriverDescriptor<D, P>>::empty(),
            r.capacity() == capacity,
    {
        DriverManager { descriptors: Vec::new(), capacity }
    }

    /// Appends a driver; it is initialized after every driver registered before it.
    pub fn register(&mut self, descriptor: DriverDescriptor<D, P>) -> (r: Result<(), RegistryError>)
        requires
            old(self).wf(),
        ensures
            final(self).wf(),
            final(self).capacity() == old(self).capacity(),
            old(self).drivers().len() < old(self).capacity() ==> r is Ok && final(self).drivers()
                == old(self).drivers().push(descriptor),
            old(self).drivers().len() >= old(self).capacity() ==> r == Err::<(), RegistryError>(
                RegistryError::Full,
            ) && final(self).drivers() == old(self).drivers(),
    {
        if self.descriptors.len() >= self.capacity {
            return Err(RegistryError::Full);
        }
        self.descriptors.push(descriptor);
        Ok(())
    }

    /// The registered drivers, in registration order.
    pub fn all_device_drivers(&self) -> (r: &Vec<DriverDescriptor<D, P>>)
        ensures
            r@ == self.drivers(),
    {
        &self.descriptors
    }

    /// The number of registered drivers.
    pub fn len(&self) -> (r: usize)
        ensures
            r == self.drivers().len(),
    {
        self.descriptors.len()
    }

    /// The compatible name of the driver at `index`.
    pub fn compatible(&self, index: usize) -> (r: &'static str)
        requires
            index < self.drivers().len(),
        ensures
            r == self.drivers()[index as int].compatible,
    {
        self.descriptors[index].compatible
    }

    /// The indices of the drivers whose post-init hooks run after all drivers are up, in
    /// registration order.
    pub fn post_init_order(&self) -> (r: Vec<usize>)
        ensures
            r@ == hook_indices(self.drivers(), self.drivers().len()),
    {
        let mut order: Vec<usize> = Vec::new();
        let n = self.descriptors.len();
        let mut i: usize = 0;
        while i < n
            invariant
                n == self.drivers().len(),
                i <= n,
                order@ == hook_indices(self.drivers(), i as nat),
            decreases n - i,
        {
            if self.descriptors[i].post_init_callback.is_some() {
                order.push(i);
            }
            i += 1;
        }
        order
    }

    /// One diagnostic line per driver, `"<position>.<compatible>"`, positions counted from 1.
    pub fn diagnostic_lines(&self) -> (r: Vec<String>)
        requires
            self.drivers().len() < usize::MAX,
        ensures
            r@.len() == self.drivers().len(),
            forall|i: int|
                0 <= i < r@.len() ==> (#[trigger] r@[i])@ == diagnostic_line(
                    (i + 1) as nat,
                    self.drivers()[i].compatible@,
                ),
    {
        let mut lines: Vec<String> = Vec::new();
        let n = self.descriptors.len();
        let mut i: usize = 0;
        while i < n
            invariant
                n == self.drivers().len(),
                n < usize::MAX,
                i <= n,
                lines@.len() == i,
                forall|k: int|
                    0 <= k < i ==> (#[trigger] lines@[k])@ == diagnostic_line(
                        (k + 1) as nat,
                        self.drivers()[k].compatible@,
                    ),
            decreases n - i,
        {
            lines.push(format_indexed_name(i + 1, self.descriptors[i].compatible));
            i += 1;
        }
        lines
    }
}

} // verus!
