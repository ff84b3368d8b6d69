//! The checks of the secure async FFI layer: the registry of the pointers
//! handed to Script code (known here by their addresses), the limits on
//! timeouts and future counts, and the security errors.
use vstd::prelude::*;
use crate::runtime::async_runtime_secure::AsyncRuntimeError;
use crate::text::{append_text, copy_text, text_eq};

verus! {

/// Maximum allowed future count to prevent resource exhaustion
pub const MAX_FUTURE_COUNT: usize = 10000;

/// Maximum timeout in milliseconds to prevent infinite blocking (5 minutes)
pub const MAX_TIMEOUT_MS: u64 = 300000;

/// How long a registered pointer stays valid: one hour, in nanoseconds.
pub const POINTER_LIFETIME_NS: u64 = 3600000000000;

/// Security error types for FFI operations
#[derive(Debug, Clone, PartialEq)]
pub enum SecurityError {
    NullPointer,
    InvalidPointer,
    TypeMismatch { expected: String, actual: String },
    InvalidTimeout,
    ResourceLimitExceeded,
    PoisonedMutex,
    ExecutorNotInitialized,
}

/// The message of a security error.
pub open spec fn security_message(e: SecurityError) -> Seq<char> {
    match e {
        SecurityError::NullPointer => "Null pointer passed to FFI function"@,
        SecurityError::InvalidPointer => "Invalid or untracked pointer"@,
        SecurityError::TypeMismatch { expected, actual } => "Type mismatch: expected "@ + expected@ + ", got "@
            + actual@,
        SecurityError::InvalidTimeout => "Invalid timeout value"@,
        SecurityError::ResourceLimitExceeded => "Resource limit exceeded"@,
        SecurityError::PoisonedMutex => "Mutex was poisoned"@,
        SecurityError::ExecutorNotInitialized => "Executor not properly initialized"@,
    }
}

/// The security error a runtime error becomes: a task limit is a resource
/// limit, a poisoned mutex stays one, anything else is an invalid pointer.
pub open spec fn from_runtime_error(err: AsyncRuntimeError) -> SecurityError {
    match err {
        AsyncRuntimeError::TaskLimitExceeded { .. } => SecurityError::ResourceLimitExceeded,
        AsyncRuntimeError::PoisonedMutex(_) => SecurityError::PoisonedMutex,
        _ => SecurityError::InvalidPointer,
    }
}

impl SecurityError {
    /// The message of this error
    pub fn to_string(&self) -> (s: String)
        ensures
            s@ == security_message(*self),
    {
        match self {
            SecurityError::NullPointer => copy_text("Null pointer passed to FFI function"),
            SecurityError::InvalidPointer => copy_text("Invalid or untracked pointer"),
            SecurityError::TypeMismatch { expected, actual } => {
                let mut s = copy_text("Type mismatch: expected ");
                append_text(&mut s, expected.as_str());
                append_text(&mut s, ", got ");
                append_text(&mut s, actual.as_str());
                s
            },
            SecurityError::InvalidTimeout => copy_text("Invalid timeout value"),
            SecurityError::ResourceLimitExceeded => copy_text("Resource limit exceeded"),
            SecurityError::PoisonedMutex => copy_text("Mutex was poisoned"),
            SecurityError::ExecutorNotInitialized => copy_text("Executor not properly initialized"),
        }
    }

    /// The security error of a runtime error
    pub fn from_runtime(err: AsyncRuntimeError) -> (e: Self)
        ensures
            e == from_runtime_error(err),
    {
        match err {
            AsyncRuntimeError::TaskLimitExceeded { .. } => SecurityError::ResourceLimitExceeded,
            AsyncRuntimeError::PoisonedMutex(_) => SecurityError::PoisonedMutex,
            _ => SecurityError::InvalidPointer,
        }
    }
}

/// What is known of a registered pointer: its identifier, the name of its
/// type and when it was registered (nanoseconds)
#[derive(Debug, Clone)]
pub struct PointerInfo {
    pub id: u64,
    pub type_label: String,
    pub created_at: u64,
}

/// The position of the entry for `address`, or -1.
pub open spec fn address_index(s: Seq<(usize, PointerInfo)>, address: usize) -> int
    decreases s.len(),
{
    if s.len() == 0 {
        -1
    } else if s.last().0 == address {
        s.len() - 1
    } else {
        address_index(s.drop_last(), address)
    }
}

/// No address occurs twice.
pub open spec fn addresses_distinct(s: Seq<(usize, PointerInfo)>) -> bool {
    forall|i: int, j: int| 0 <= i < s.len() && 0 <= j < s.len() && i != j ==> #[trigger] s[i].0 != #[trigger] s[j].0
}

/// What registering `address` with a type name at `now` under identifier
/// `id` does to the entries: an address already there gets the new record
/// in its place, a new one is appended; the others stay.
pub open spec fn registered(
    before: Seq<(usize, PointerInfo)>,
    after: Seq<(usize, PointerInfo)>,
    address: usize,
    type_label: Seq<char>,
    now: u64,
    id: u64,
) -> bool {
    let info_ok = |p: (usize, PointerInfo)|
        p.0 == address && p.1.id == id && p.1.type_label@ == type_label && p.1.created_at == now;
    let i = address_index(before, address);
    if i >= 0 {
        after.len() == before.len() && info_ok(after[i]) && forall|k: int|
            0 <= k < before.len() && k != i ==> after[k] == before[k]
    } else {
        after.len() == before.len() + 1 && info_ok(after.last()) && forall|k: int|
            0 <= k < before.len() ==> after[k] == before[k]
    }
}

/// What validating `address` for a type name does: null is refused and an
/// unknown address is invalid, both leaving the entries; a known address
/// leaves the entries and its record is given back when its type name is
/// the expected one, else refused with both names.
pub open spec fn validated(
    before: Seq<(usize, PointerInfo)>,
    after: Seq<(usize, PointerInfo)>,
    address: usize,
    expected_type: Seq<char>,
    r: Result<PointerInfo, SecurityError>,
) -> bool {
    &&& address == 0 ==> r == Err::<PointerInfo, SecurityError>(SecurityError::NullPointer) && after == before
    &&& address != 0 && address_index(before, address) == -1 ==> r == Err::<PointerInfo, SecurityError>(
        SecurityError::InvalidPointer,
    ) && after == before
    &&& address != 0 && address_index(before, address) >= 0 ==> ({
        let i = address_index(before, address);
        let info = before[i].1;
        &&& after == before.remove(i)
        &&& info.type_label@ == expected_type ==> (r matches Ok(got) && got.id == info.id && got.type_label@
            == info.type_label@ && got.created_at == info.created_at)
        &&& info.type_label@ != expected_type ==> (r matches Err(SecurityError::TypeMismatch { expected, actual })
            && expected@ == expected_type && actual@ == info.type_label@)
    })
}

/// A pointer registered with a type name is accepted once for that name:
/// validating it gives back the record it was registered with and takes it
/// out, so that validating it again finds it no more.
pub proof fn lemma_register_then_validate(
    e0: Seq<(usize, PointerInfo)>,
    e1: Seq<(usize, PointerInfo)>,
    e2: Seq<(usize, PointerInfo)>,
    e3: Seq<(usize, PointerInfo)>,
    address: usize,
    type_label: Seq<char>,
    now: u64,
    id: u64,
    r1: Result<PointerInfo, SecurityError>,
    r2: Result<PointerInfo, SecurityError>,
)
    requires
        addresses_distinct(e0),
        addresses_distinct(e1),
        addresses_distinct(e2),
        address != 0,
        registered(e0, e1, address, type_label, now, id),
        validated(e1, e2, address, type_label, r1),
        validated(e2, e3, address, type_label, r2),
    ensures
        r1 matches Ok(info) && info.id == id && info.type_label@ == type_label && info.created_at == now,
        r2 == Err::<PointerInfo, SecurityError>(SecurityError::InvalidPointer),
        e3 == e2,
        e2.len() + 1 == e1.len(),
{
    lemma_address_index(e0, address);
    lemma_address_index(e1, address);
    let i0 = address_index(e0, address);
    let at = if i0 >= 0 { i0 } else { e0.len() as int };
    assert(e1[at].0 == address);
    let i1 = address_index(e1, address);
    assert(i1 == at);
    lemma_address_index(e2, address);
    assert forall|k: int| 0 <= k < e2.len() implies #[trigger] e2[k].0 != address by {
        let k1 = if k < i1 { k } else { k + 1 };
        assert(e2[k] == e1[k1]);
    }
}

/// The time since `start` at `now` (zero if `now` is earlier).
pub open spec fn age(start: u64, now: u64) -> int {
    if now >= start {
        now - start
    } else {
        0
    }
}

proof fn lemma_address_index(s: Seq<(usize, PointerInfo)>, address: usize)
    requires
        addresses_distinct(s),
    ensures
        -1 <= address_index(s, address) < s.len(),
        address_index(s, address) >= 0 ==> s[address_index(s, address)].0 == address,
        address_index(s, address) == -1 <==> forall|i: int| 0 <= i < s.len() ==> #[trigger] s[i].0 != address,
    decreases s.len(),
{
    if s.len() > 0 {
        let t = s.drop_last();
        assert(addresses_distinct(t)) by {
            assert forall|i: int, j: int| 0 <= i < t.len() && 0 <= j < t.len() && i != j implies #[trigger] t[i].0
                != #[trigger] t[j].0 by {
                assert(t[i] == s[i] && t[j] == s[j]);
            }
        }
        lemma_address_index(t, address);
        if s.last().0 != address {
            assert forall|i: int| 0 <= i < s.len() && (forall|k: int| 0 <= k < t.len() ==> #[trigger] t[k].0 != address)
                implies #[trigger] s[i].0 != address by {
                if i < t.len() {
                    assert(t[i] == s[i]);
                }
            }
            if address_index(t, address) == -1 {
                assert forall|i: int| 0 <= i < s.len() implies #[trigger] s[i].0 != address by {
                    if i < t.len() {
                        assert(t[i] == s[i]);
                    }
                }
            } else {
                let k = address_index(t, address);
                assert(s[k] == t[k]);
            }
        }
    }
}

/// The entries registered less than an hour before `now`, in order.
pub open spec fn unexpired(s: Seq<(usize, PointerInfo)>, now: u64) -> Seq<(usize, PointerInfo)>
    decreases s.len(),
{
    if s.len() == 0 {
        s
    } else {
        let r = unexpired(s.drop_last(), now);
        if age(s.last().1.created_at, now) < POINTER_LIFETIME_NS {
            r.push(s.last())
        } else {
            r
        }
    }
}

proof fn lemma_unexpired_distinct(s: Seq<(usize, PointerInfo)>, now: u64)
    requires
        addresses_distinct(s),
    ensures
        addresses_distinct(unexpired(s, now)),
        forall|i: int|
            0 <= i < unexpired(s, now).len() ==> exists|j: int| 0 <= j < s.len() && #[trigger] unexpired(s, now)[i].0 == s[j].0,
    decreases s.len(),
{
    if s.len() > 0 {
        let t = s.drop_last();
        assert(addresses_distinct(t)) by {
            assert forall|i: int, j: int| 0 <= i < t.len() && 0 <= j < t.len() && i != j implies #[trigger] t[i].0
                != #[trigger] t[j].0 by {
                assert(t[i] == s[i] && t[j] == s[j]);
            }
        }
        lemma_unexpired_distinct(t, now);
        let u = unexpired(t, now);
        let r = unexpired(s, now);
        assert forall|i: int| 0 <= i < u.len() implies exists|j: int| 0 <= j < s.len() && #[trigger] u[i].0 == s[j].0 by {
            let j = choose|j: int| 0 <= j < t.len() && #[trigger] u[i].0 == t[j].0;
            assert(t[j] == s[j]);
        }
        if age(s.last().1.created_at, now) < POINTER_LIFETIME_NS {
            assert forall|i: int| 0 <= i < u.len() implies #[trigger] u[i].0 != s.last().0 by {
                let j = choose|j: int| 0 <= j < t.len() && #[trigger] u[i].0 == t[j].0;
                assert(t[j] == s[j]);
                assert(s[j].0 != s[s.len() - 1].0);
            }
            assert forall|a: int, b: int| 0 <= a < r.len() && 0 <= b < r.len() && a != b implies #[trigger] r[a].0
                != #[trigger] r[b].0 by {
                if a < u.len() && b < u.len() {
                    assert(r[a] == u[a] && r[b] == u[b]);
                } else if a < u.len() {
                    assert(r[a] == u[a]);
                } else {
                    assert(r[b] == u[b]);
                }
            }
            assert forall|i: int| 0 <= i < r.len() implies exists|j: int| 0 <= j < s.len() && #[trigger] r[i].0 == s[j].0 by {
                if i < u.len() {
                    assert(r[i] == u[i]);
                } else {
                    assert(r[i].0 == s[s.len() - 1].0);
                }
            }
        }
    }
}

/// Secure pointer validation and tracking: the pointers handed out, by
/// address
pub struct SecurePointerRegistry {
    valid_pointers: Vec<(usize, PointerInfo)>,
    next_id: u64,
}

impl SecurePointerRegistry {
    /// The registered pointers, in order of registration.
    pub closed spec fn entries(&self) -> Seq<(usize, PointerInfo)> {
        self.valid_pointers@
    }

    /// The identifier the next registration gets.
    pub closed spec fn next(&self) -> u64 {
        self.next_id
    }

    #[verifier::type_invariant]
    spec fn distinct(&self) -> bool {
        addresses_distinct(self.valid_pointers@)
    }

    /// An empty registry; identifiers start at 1
    pub fn new() -> (r: Self)
        ensures
            r.entries() == Seq::<(usize, PointerInfo)>::empty(),
            r.next() == 1,
    {
        SecurePointerRegistry { valid_pointers: Vec::new(), next_id: 1 }
    }

    /// The number of registered pointers
    pub fn len(&self) -> (n: usize)
        ensures
            n == self.entries().len(),
    {
        self.valid_pointers.len()
    }

    /// The position of a registered address
    fn find(&self, address: usize) -> (r: Option<usize>)
        ensures
            match r {
                Some(i) => i as int == address_index(self.entries(), address) && i < self.entries().len(),
                None => address_index(self.entries(), address) == -1,
            },
    {
        proof {
            use_type_invariant(self);
            lemma_address_index(self.valid_pointers@, address);
        }
        let mut i: usize = 0;
        while i < self.valid_pointers.len()
            invariant
                i <= self.valid_pointers@.len(),
                addresses_distinct(self.valid_pointers@),
                forall|k: int| 0 <= k < i ==> (#[trigger] self.valid_pointers@[k]).0 != address,
            decreases self.valid_pointers@.len() - i,
        {
            if self.valid_pointers[i].0 == address {
                proof {
                    lemma_address_index(self.valid_pointers@, address);
                    if address_index(self.valid_pointers@, address) != i as int {
                        let k = address_index(self.valid_pointers@, address);
                        assert(self.valid_pointers@[k].0 == address);
                    }
                }
                return Some(i);
            }
            i = i + 1;
        }
        None
    }

    /// Register a pointer as valid with the name of its type at `now`: it
    /// gets the next identifier (a pointer registered again is replaced)
    pub fn register_pointer(&mut self, address: usize, type_label: &str, now: u64) -> (id: u64)
        ensures
            id == old(self).next(),
            final(self).next() == if old(self).next() == u64::MAX {
                0
            } else {
                (old(self).next() + 1) as u64
            },
            registered(old(self).entries(), final(self).entries(), address, type_label@, now, id),
    {
        proof {
            use_type_invariant(&*self);
        }
        let id = self.next_id;
        let info = PointerInfo { id, type_label: copy_text(type_label), created_at: now };
        let pos = self.find(address);
        let mut current = SecurePointerRegistry::new();
        std::mem::swap(&mut current, self);
        let SecurePointerRegistry { valid_pointers, next_id } = current;
        let mut pointers = valid_pointers;
        let ghost before = pointers@;
        match pos {
            Some(i) => {
                proof {
                    lemma_address_index(before, address);
                }
                pointers.set(i, (address, info));
                assert forall|a: int, b: int| 0 <= a < pointers@.len() && 0 <= b < pointers@.len() && a != b implies #[trigger] pointers@[a].0
                    != #[trigger] pointers@[b].0 by {
                    if a != i && b != i {
                        assert(pointers@[a] == before[a] && pointers@[b] == before[b]);
                    } else if a == i {
                        assert(pointers@[b] == before[b]);
                    } else {
                        assert(pointers@[a] == before[a]);
                    }
                }
            },
            None => {
                proof {
                    lemma_address_index(before, address);
                }
                pointers.push((address, info));
                assert forall|a: int, b: int| 0 <= a < pointers@.len() && 0 <= b < pointers@.len() && a != b implies #[trigger] pointers@[a].0
                    != #[trigger] pointers@[b].0 by {
                    if a < before.len() && b < before.len() {
                        assert(pointers@[a] == before[a] && pointers@[b] == before[b]);
                    } else if a < before.len() {
                        assert(pointers@[a] == before[a]);
                    } else {
                        assert(pointers@[b] == before[b]);
                    }
                }
            },
        }
        *self = SecurePointerRegistry { valid_pointers: pointers, next_id: next_id.wrapping_add(1) };
        id
    }

    /// Validate a pointer and take it out of the registry: null is refused;
    /// an unknown address is invalid; a known one leaves the registry, and
    /// is given back when its type is the expected one, else refused with
    /// both type names
    pub fn validate_and_remove(&mut self, address: usize, expected_type: &str) -> (r: Result<PointerInfo, SecurityError>)
        ensures
            final(self).next() == old(self).next(),
            validated(old(self).entries(), final(self).entries(), address, expected_type@, r),
    {
        proof {
            use_type_invariant(&*self);
        }
        if address == 0 {
            return Err(SecurityError::NullPointer);
        }
        match self.find(address) {
            None => Err(SecurityError::InvalidPointer),
            Some(i) => {
                let mut current = SecurePointerRegistry::new();
                std::mem::swap(&mut current, self);
                let SecurePointerRegistry { valid_pointers, next_id } = current;
                let mut pointers = valid_pointers;
                let ghost before = pointers@;
                let (_, info) = pointers.remove(i);
                assert forall|a: int, b: int| 0 <= a < pointers@.len() && 0 <= b < pointers@.len() && a != b implies #[trigger] pointers@[a].0
                    != #[trigger] pointers@[b].0 by {
                    let a2 = if a < i { a } else { a + 1 };
                    let b2 = if b < i { b } else { b + 1 };
                    assert(pointers@[a] == before[a2] && pointers@[b] == before[b2]);
                }
                *self = SecurePointerRegistry { valid_pointers: pointers, next_id };
                if text_eq(info.type_label.as_str(), expected_type) {
                    Ok(info)
                } else {
                    Err(
                        SecurityError::TypeMismatch {
                            expected: copy_text(expected_type),
                            actual: copy_text(info.type_label.as_str()),
                        },
                    )
                }
            },
        }
    }

    /// Check if a pointer is valid without removing it
    pub fn is_valid_pointer(&self, address: usize, expected_type: &str) -> (b: bool)
        ensures
            b == (address != 0 && address_index(self.entries(), address) >= 0 && self.entries()[address_index(
                self.entries(),
                address,
            )].1.type_label@ == expected_type@),
    {
        if address == 0 {
            return false;
        }
        match self.find(address) {
            None => false,
            Some(i) => text_eq(self.valid_pointers[i].1.type_label.as_str(), expected_type),
        }
    }

    /// Clean up the pointers registered an hour or more before `now`
    pub fn cleanup_expired(&mut self, now: u64)
        ensures
            final(self).next() == old(self).next(),
            final(self).entries() == unexpired(old(self).entries(), now),
    {
        proof {
            use_type_invariant(&*self);
        }
        let mut current = SecurePointerRegistry::new();
        std::mem::swap(&mut current, self);
        let SecurePointerRegistry { valid_pointers, next_id } = current;
        let ghost all = valid_pointers@;
        let mut kept: Vec<(usize, PointerInfo)> = Vec::new();
        let mut rest = valid_pointers;
        let ghost mut t: int = 0;
        assert(rest@ =~= all.subrange(0, all.len() as int));
        assert(unexpired(all.subrange(0, 0), now) =~= Seq::<(usize, PointerInfo)>::empty());
        while rest.len() > 0
            invariant
                0 <= t <= all.len(),
                rest@ == all.subrange(t, all.len() as int),
                kept@ == unexpired(all.subrange(0, t), now),
                addresses_distinct(all),
            decreases rest@.len(),
        {
            let ghost old_rest = rest@;
            assert(old_rest.len() > 0);
            let p = rest.remove(0);
            proof {
                assert(old_rest[0] == all[t]);
                assert(rest@ =~= all.subrange(t + 1, all.len() as int));
                let sub = all.subrange(0, t + 1);
                assert(sub.drop_last() =~= all.subrange(0, t));
                assert(sub.last() == p);
            }
            let young = if now >= p.1.created_at {
                now - p.1.created_at < POINTER_LIFETIME_NS
            } else {
                true
            };
            if young {
                kept.push(p);
            }
            proof {
                t = t + 1;
            }
        }
        assert(all.subrange(0, t) =~= all);
        proof {
            lemma_unexpired_distinct(all, now);
        }
        *self = SecurePointerRegistry { valid_pointers: kept, next_id };
    }

    /// Forget every registered pointer
    pub fn clear(&mut self)
        ensures
            final(self).entries() == Seq::<(usize, PointerInfo)>::empty(),
            final(self).next() == old(self).next(),
    {
        let next_id = self.next_id;
        *self = SecurePointerRegistry { valid_pointers: Vec::new(), next_id };
    }
}

/// Checks the timeout of a blocking wait, in milliseconds
pub fn check_timeout_ms(timeout_ms: u64) -> (r: Result<(), SecurityError>)
    ensures
        timeout_ms > MAX_TIMEOUT_MS ==> r == Err::<(), SecurityError>(SecurityError::InvalidTimeout),
        timeout_ms <= MAX_TIMEOUT_MS ==> r is Ok,
{
    if timeout_ms > MAX_TIMEOUT_MS {
        Err(SecurityError::InvalidTimeout)
    } else {
        Ok(())
    }
}

/// Checks the number of futures joined: the declared count must be within
/// the limit and equal to the number given
pub fn check_future_count(count: usize, given: usize) -> (r: Result<(), SecurityError>)
    ensures
        count > MAX_FUTURE_COUNT || given != count ==> r == Err::<(), SecurityError>(
            SecurityError::ResourceLimitExceeded,
        ),
        count <= MAX_FUTURE_COUNT && given == count ==> r is Ok,
{
    if count > MAX_FUTURE_COUNT || given != count {
        Err(SecurityError::ResourceLimitExceeded)
    } else {
        Ok(())
    }
}

} // verus!
