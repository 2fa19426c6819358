//! Sets of names in byte order.

use vstd::prelude::*;
use vstd::string::*;
use vstd::utf8::*;
use crate::text::same_text;

verus! {

/// Whether one byte string comes before another: by the first byte that differs, a prefix first.
pub open spec fn before(a: Seq<u8>, b: Seq<u8>) -> bool
    decreases a.len(),
{
    if b.len() == 0 {
        false
    } else if a.len() == 0 {
        true
    } else if a[0] != b[0] {
        a[0] < b[0]
    } else {
        before(a.skip(1), b.skip(1))
    }
}

/// Whether one name comes before another, by the bytes of their UTF-8 form.
pub open spec fn name_before(a: Seq<char>, b: Seq<char>) -> bool {
    before(encode_utf8(a), encode_utf8(b))
}

/// Nothing comes before itself, and of two byte strings at most one comes first.
pub proof fn before_is_asymmetric(a: Seq<u8>, b: Seq<u8>)
    ensures
        !(before(a, b) && before(b, a)),
        !before(a, a),
    decreases a.len(),
{
    if a.len() > 0 {
        let rest = if b.len() > 0 {
            b.skip(1)
        } else {
            b
        };
        before_is_asymmetric(a.skip(1), rest);
    }
}

/// Order carries over.
pub proof fn before_is_transitive(a: Seq<u8>, b: Seq<u8>, c: Seq<u8>)
    requires
        before(a, b),
        before(b, c),
    ensures
        before(a, c),
    decreases a.len(),
{
    if a.len() > 0 && a[0] == b[0] && b[0] == c[0] {
        before_is_transitive(a.skip(1), b.skip(1), c.skip(1));
    }
}

/// Of two different byte strings one comes first.
pub proof fn before_is_total(a: Seq<u8>, b: Seq<u8>)
    ensures
        a == b || before(a, b) || before(b, a),
    decreases a.len(),
{
    if a.len() == 0 {
        assert(b.len() == 0 ==> a =~= b);
    } else if b.len() > 0 && a[0] == b[0] {
        before_is_total(a.skip(1), b.skip(1));
        if a.skip(1) == b.skip(1) {
            assert(a =~= seq![a[0]] + a.skip(1));
            assert(b =~= seq![b[0]] + b.skip(1));
        }
    }
}

/// Whether one name comes before another.
fn comes_before(a: &str, b: &str) -> (r: bool)
    ensures
        r == name_before(a@, b@),
{
    let left = a.as_bytes();
    let right = b.as_bytes();
    let mut i: usize = 0;
    assert(left@.skip(0) =~= left@);
    assert(right@.skip(0) =~= right@);
    while i < left.len() && i < right.len()
        invariant
            left@ == encode_utf8(a@),
            right@ == encode_utf8(b@),
            i <= left@.len(),
            i <= right@.len(),
            before(left@, right@) == before(left@.skip(i as int), right@.skip(i as int)),
        decreases left@.len() - i,
    {
        if left[i] != right[i] {
            assert(left@.skip(i as int)[0] == left@[i as int]);
            assert(right@.skip(i as int)[0] == right@[i as int]);
            return left[i] < right[i];
        }
        proof {
            assert(left@.skip(i as int)[0] == left@[i as int]);
            assert(right@.skip(i as int)[0] == right@[i as int]);
            assert(left@.skip(i as int).skip(1) =~= left@.skip(i + 1));
            assert(right@.skip(i as int).skip(1) =~= right@.skip(i + 1));
        }
        i += 1;
    }
    i < right.len()
}

/// Whether names stand in strict order.
pub open spec fn ordered(names: Seq<Seq<char>>) -> bool {
    forall|i: int, j: int|
        0 <= i < j < names.len() ==> name_before(#[trigger] names[i], #[trigger] names[j])
}

/// The views of texts.
pub open spec fn texts(names: Seq<String>) -> Seq<Seq<char>> {
    names.map_values(|name: String| name@)
}

/// Names in strict order, each once.
#[derive(Debug)]
pub struct NameSet {
    names: Vec<String>,
}

impl NameSet {
    #[verifier::type_invariant]
    spec fn well_formed(self) -> bool {
        ordered(texts(self.names@))
    }

    /// The names in order.
    pub closed spec fn listed(self) -> Seq<Seq<char>> {
        texts(self.names@)
    }

    /// An empty set.
    pub fn new() -> (set: Self)
        ensures
            set.listed() == Seq::<Seq<char>>::empty(),
    {
        let set = NameSet { names: Vec::new() };
        assert(texts(set.names@) =~= Seq::empty());
        set
    }

    /// How many names there are.
    pub fn len(&self) -> (n: usize)
        ensures
            n == self.listed().len(),
    {
        self.names.len()
    }

    /// Where a name stands or would stand: all names before that come before it, none after.
    fn place(&self, name: &str) -> (at: usize)
        ensures
            at <= self.listed().len(),
            forall|i: int| 0 <= i < at ==> name_before(#[trigger] self.listed()[i], name@),
            forall|i: int|
                at <= i < self.listed().len() ==> !name_before(#[trigger] self.listed()[i], name@),
    {
        proof {
            use_type_invariant(self);
        }
        let mut low: usize = 0;
        let mut high: usize = self.names.len();
        let ghost listed = self.listed();
        while low < high
            invariant
                listed == texts(self.names@),
                ordered(listed),
                low <= high <= listed.len(),
                forall|i: int| 0 <= i < low ==> name_before(#[trigger] listed[i], name@),
                forall|i: int|
                    high <= i < listed.len() ==> !name_before(#[trigger] listed[i], name@),
            decreases high - low,
        {
            let middle: usize = low + (high - low) / 2;
            assert(listed[middle as int] == self.names@[middle as int]@);
            if comes_before(self.names[middle].as_str(), name) {
                proof {
                    assert forall|i: int| 0 <= i < middle + 1 implies name_before(
                        #[trigger] listed[i],
                        name@,
                    ) by {
                        if i < middle {
                            before_is_transitive(
                                encode_utf8(listed[i]),
                                encode_utf8(listed[middle as int]),
                                encode_utf8(name@),
                            );
                        }
                    }
                }
                low = middle + 1;
            } else {
                proof {
                    assert forall|i: int| middle <= i < listed.len() implies !name_before(
                        #[trigger] listed[i],
                        name@,
                    ) by {
                        if i > middle && name_before(listed[i], name@) {
                            before_is_transitive(
                                encode_utf8(listed[middle as int]),
                                encode_utf8(listed[i]),
                                encode_utf8(name@),
                            );
                        }
                    }
                }
                high = middle;
            }
        }
        low
    }

    /// Whether a name is in the set.
    pub fn contains(&self, name: &str) -> (r: bool)
        ensures
            r == self.listed().contains(name@),
    {
        proof {
            use_type_invariant(self);
        }
        let at: usize = self.place(name);
        let ghost listed = self.listed();
        if at < self.names.len() {
            assert(listed[at as int] == self.names@[at as int]@);
            if same_text(self.names[at].as_str(), name) {
                return true;
            }
        }
        proof {
            assert forall|i: int| 0 <= i < listed.len() implies listed[i] != name@ by {
                before_is_asymmetric(encode_utf8(name@), encode_utf8(name@));
                if i > at && listed[i] == name@ {
                    assert(name_before(listed[at as int], listed[i]));
                }
            }
        }
        false
    }

    /// Adds a name and tells where it now stands, or `None` where it was there before.
    pub fn insert(&mut self, name: &str) -> (at: Option<usize>)
        ensures
            match at {
                Some(i) => {
                    &&& !old(self).listed().contains(name@)
                    &&& i <= old(self).listed().len()
                    &&& final(self).listed() == old(self).listed().insert(i as int, name@)
                    &&& ordered(final(self).listed())
                },
                None => {
                    &&& old(self).listed().contains(name@)
                    &&& final(self).listed() == old(self).listed()
                },
            },
    {
        proof {
            use_type_invariant(&*self);
        }
        if self.contains(name) {
            return None;
        }
        let at: usize = self.place(name);
        let ghost listed = self.listed();
        let mut names: Vec<String> = Vec::new();
        std::mem::swap(&mut names, &mut self.names);
        names.insert(at, name.to_owned());
        proof {
            let now = texts(names@);
            assert(now =~= listed.insert(at as int, name@));
            assert forall|i: int, j: int| 0 <= i < j < now.len() implies name_before(
                #[trigger] now[i],
                #[trigger] now[j],
            ) by {
                if j == at {
                    assert(now[i] == listed[i]);
                } else if i == at {
                    assert(now[j] == listed[j - 1]);
                    before_is_total(encode_utf8(listed[j - 1]), encode_utf8(name@));
                    encode_utf8_decode_utf8(listed[j - 1]);
                    encode_utf8_decode_utf8(name@);
                    assert(listed.contains(listed[j - 1]));
                }
            }
        }
        self.names = names;
        Some(at)
    }

    /// Whether two sets hold the same names.
    pub fn same(&self, other: &NameSet) -> (r: bool)
        ensures
            r == (self.listed().to_set() == other.listed().to_set()),
    {
        proof {
            use_type_invariant(self);
            use_type_invariant(other);
            if self.listed().to_set() == other.listed().to_set() {
                order_is_canonical(self.listed(), other.listed());
            }
        }
        let ghost left = self.listed();
        let ghost right = other.listed();
        assert(left.len() == self.names@.len() && right.len() == other.names@.len());
        if self.names.len() != other.names.len() {
            return false;
        }
        let mut i: usize = 0;
        while i < self.names.len()
            invariant
                left == texts(self.names@),
                right == texts(other.names@),
                left == self.listed(),
                right == other.listed(),
                left.to_set() == right.to_set() ==> left == right,
                left.len() == right.len(),
                i <= left.len(),
                forall|j: int| 0 <= j < i ==> left[j] == right[j],
            decreases left.len() - i,
        {
            assert(left[i as int] == self.names@[i as int]@);
            assert(right[i as int] == other.names@[i as int]@);
            if !same_text(self.names[i].as_str(), other.names[i].as_str()) {
                return false;
            }
            i += 1;
        }
        assert(left =~= right);
        true
    }
}

/// Names in strict order are determined by which names they are.
pub proof fn order_is_canonical(a: Seq<Seq<char>>, b: Seq<Seq<char>>)
    requires
        ordered(a),
        ordered(b),
        a.to_set() == b.to_set(),
    ensures
        a == b,
    decreases a.len(),
{
    if a.len() == 0 || b.len() == 0 {
        if a.len() > 0 {
            assert(a.to_set().contains(a[0]));
        }
        if b.len() > 0 {
            assert(b.to_set().contains(b[0]));
        }
        assert(a =~= b);
    } else {
        let x = a.last();
        let y = b.last();
        assert(a.to_set().contains(x) && b.to_set().contains(y));
        let i = choose|i: int| 0 <= i < b.len() && b[i] == x;
        let j = choose|j: int| 0 <= j < a.len() && a[j] == y;
        if x != y {
            assert(i < b.len() - 1 && j < a.len() - 1);
            assert(name_before(b[i], b[b.len() - 1]));
            assert(name_before(a[j], a[a.len() - 1]));
            before_is_asymmetric(encode_utf8(x), encode_utf8(y));
        }
        let front_a = a.drop_last();
        let front_b = b.drop_last();
        last_is_only_last(a);
        last_is_only_last(b);
        assert(front_a.to_set() =~= front_b.to_set()) by {
            assert forall|name: Seq<char>| front_a.to_set().contains(name)
                == front_b.to_set().contains(name) by {
                if front_a.contains(name) {
                    let k = choose|k: int| 0 <= k < front_a.len() && front_a[k] == name;
                    assert(a[k] == name);
                    assert(a.to_set().contains(name));
                    let m = choose|m: int| 0 <= m < b.len() && b[m] == name;
                    assert(front_b[m] == name);
                }
                if front_b.contains(name) {
                    let k = choose|k: int| 0 <= k < front_b.len() && front_b[k] == name;
                    assert(b[k] == name);
                    assert(b.to_set().contains(name));
                    let m = choose|m: int| 0 <= m < a.len() && a[m] == name;
                    assert(front_a[m] == name);
                }
            }
        }
        assert(ordered(front_a) && ordered(front_b));
        order_is_canonical(front_a, front_b);
        assert(a =~= front_a.push(x));
        assert(b =~= front_b.push(y));
    }
}

/// In strict order the last name stands nowhere else.
proof fn last_is_only_last(names: Seq<Seq<char>>)
    requires
        ordered(names),
        names.len() > 0,
    ensures
        forall|i: int| 0 <= i < names.len() - 1 ==> #[trigger] names[i] != names.last(),
{
    assert forall|i: int| 0 <= i < names.len() - 1 implies #[trigger] names[i] != names.last() by {
        assert(name_before(names[i], names[names.len() - 1]));
        before_is_asymmetric(encode_utf8(names[i]), encode_utf8(names[i]));
    }
}

/// One byte string comes before another exactly when it is a proper beginning of it, or has the
/// smaller byte where the two first differ.
pub proof fn the_first_difference_decides(
    common: Seq<u8>,
    a: u8,
    b: u8,
    more: Seq<u8>,
    other: Seq<u8>,
)
    ensures
        before(common, common.push(a) + more),
        !before(common.push(a) + more, common),
        a < b ==> before(common.push(a) + more, common.push(b) + other),
        a < b ==> !before(common.push(b) + other, common.push(a) + more),
    decreases common.len(),
{
    let left = common.push(a) + more;
    let right = common.push(b) + other;
    if common.len() > 0 {
        let rest = common.skip(1);
        the_first_difference_decides(rest, a, b, more, other);
        assert(left.skip(1) =~= rest.push(a) + more);
        assert(right.skip(1) =~= rest.push(b) + other);
        assert(left[0] == common[0] && right[0] == common[0]);
    } else {
        assert(left[0] == a && right[0] == b);
    }
}

}
