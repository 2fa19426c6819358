//! Relative paths of archives and inventories.
//!
//! Paths are byte strings read by the component rules of the platform: separators divide a path
//! into components, repeated separators and inner `.` components count for nothing.

use vstd::prelude::*;

verus! {

/// Whose component rules apply.
#[derive(Debug, Clone, Copy, PartialEq, Eq, Structural)]
pub enum PathStyle {
    /// `/` separates components.
    Unix,
    /// `/` and `\` separate components, and a drive letter starts a prefix.
    Windows,
}

impl PathStyle {
    /// Whether a byte separates components.
    pub open spec fn separates(self, byte: u8) -> bool {
        byte == 0x2f || (self == PathStyle::Windows && byte == 0x5c)
    }

    /// Whether a byte separates components.
    pub fn is_separator(self, byte: u8) -> (r: bool)
        ensures
            r == self.separates(byte),
    {
        byte == 0x2f || (self == PathStyle::Windows && byte == 0x5c)
    }
}

/// Where the first separator stands; the length where there is none.
pub open spec fn first_separator(bytes: Seq<u8>, style: PathStyle) -> nat
    decreases bytes.len(),
{
    if bytes.len() == 0 || style.separates(bytes[0]) {
        0
    } else {
        1 + first_separator(bytes.skip(1), style)
    }
}

/// What stands between separators, in order.
pub open spec fn pieces(bytes: Seq<u8>, style: PathStyle) -> Seq<Seq<u8>>
    decreases bytes.len(),
{
    let p = first_separator(bytes, style);
    if p >= bytes.len() {
        seq![bytes]
    } else {
        seq![bytes.take(p as int)] + pieces(bytes.skip(p as int + 1), style)
    }
}

/// The position found is in range, holds a separator, and none stands before it.
pub proof fn first_separator_properties(bytes: Seq<u8>, style: PathStyle)
    ensures
        first_separator(bytes, style) <= bytes.len(),
        first_separator(bytes, style) < bytes.len() ==> style.separates(
            bytes[first_separator(bytes, style) as int],
        ),
        forall|i: int|
            0 <= i < first_separator(bytes, style) ==> !style.separates(#[trigger] bytes[i]),
    decreases bytes.len(),
{
    if bytes.len() > 0 && !style.separates(bytes[0]) {
        let rest = bytes.skip(1);
        first_separator_properties(rest, style);
        assert forall|i: int| 0 <= i < first_separator(bytes, style) implies !style.separates(
            #[trigger] bytes[i],
        ) by {
            if i > 0 {
                assert(bytes[i] == rest[i - 1]);
            }
        }
    }
}

/// The first position with a separator and none before it is the one found.
proof fn first_separator_is(bytes: Seq<u8>, style: PathStyle, p: int)
    requires
        0 <= p <= bytes.len(),
        p < bytes.len() ==> style.separates(bytes[p]),
        forall|i: int| 0 <= i < p ==> !style.separates(#[trigger] bytes[i]),
    ensures
        first_separator(bytes, style) == p,
{
    first_separator_properties(bytes, style);
    let q = first_separator(bytes, style);
    if q < p {
        assert(style.separates(bytes[q as int]));
    } else if p < q {
        assert(style.separates(bytes[p]));
    }
}

/// `.`
pub open spec fn current() -> Seq<u8> {
    seq![0x2e]
}

/// `..`
pub open spec fn parent() -> Seq<u8> {
    seq![0x2e, 0x2e]
}

/// The components after the first piece: empty and `.` pieces count for nothing.
pub open spec fn inner_components(pieces: Seq<Seq<u8>>) -> Seq<Seq<u8>> {
    pieces.filter(|piece: Seq<u8>| piece.len() > 0 && piece != current())
}

/// The components of a path without root or prefix. A leading `.` is kept: it is a component of
/// its own.
pub open spec fn components(bytes: Seq<u8>, style: PathStyle) -> Seq<Seq<u8>> {
    let all = pieces(bytes, style);
    (if all[0].len() > 0 {
        seq![all[0]]
    } else {
        Seq::empty()
    }) + inner_components(all.skip(1))
}

/// Whether a path starts with a drive letter and a colon.
pub open spec fn drive(bytes: Seq<u8>) -> bool {
    bytes.len() >= 2 && bytes[1] == 0x3a && (0x41 <= bytes[0] <= 0x5a || 0x61 <= bytes[0] <= 0x7a)
}

/// Whether a path starts at a root or with a prefix instead of a name.
pub open spec fn rooted(bytes: Seq<u8>, style: PathStyle) -> bool {
    ||| bytes.len() > 0 && style.separates(bytes[0])
    ||| style == PathStyle::Windows && drive(bytes)
}

/// Whether a component names a file or directory below the current one.
pub open spec fn plain_name(component: Seq<u8>) -> bool {
    component.len() > 0 && component != current() && component != parent()
}

/// Whether a path stays below where it is applied: not empty, not rooted, only plain names.
pub open spec fn safe_path(bytes: Seq<u8>, style: PathStyle) -> bool {
    &&& bytes.len() > 0
    &&& !rooted(bytes, style)
    &&& forall|i: int|
        0 <= i < components(bytes, style).len() ==> plain_name(
            #[trigger] components(bytes, style)[i],
        )
}

/// Whether a component below an archive's root can be installed: a plain name that does not itself
/// start with a drive.
pub open spec fn installable_name(component: Seq<u8>, style: PathStyle) -> bool {
    plain_name(component) && !(style == PathStyle::Windows && drive(component))
}

/// Whether a path starts with the named root directory.
pub open spec fn under_root(bytes: Seq<u8>, root: Seq<u8>, style: PathStyle) -> bool {
    &&& !rooted(bytes, style)
    &&& plain_name(root)
    &&& components(bytes, style).len() > 0
    &&& components(bytes, style)[0] == root
}

/// The names below the root of an archive, or why the path is refused.
pub open spec fn below_root(bytes: Seq<u8>, root: Seq<u8>, style: PathStyle) -> Result<
    Seq<Seq<u8>>,
    Seq<char>,
> {
    if !under_root(bytes, root, style) {
        Err("artifact archive root is invalid"@)
    } else if exists|i: int|
        1 <= i < components(bytes, style).len() && !installable_name(
            #[trigger] components(bytes, style)[i],
            style,
        ) {
        Err("artifact archive path is invalid"@)
    } else {
        Ok(components(bytes, style).skip(1))
    }
}

/// Names joined with `/`, in which `\` is written as `/` too.
pub open spec fn joined(names: Seq<Seq<u8>>) -> Seq<u8>
    decreases names.len(),
{
    if names.len() == 0 {
        Seq::empty()
    } else if names.len() == 1 {
        with_slashes(names[0])
    } else {
        joined(names.drop_last()).push(0x2f) + with_slashes(names.last())
    }
}

/// A name in which `\` is written as `/`.
pub open spec fn with_slashes(name: Seq<u8>) -> Seq<u8> {
    name.map_values(
        |byte: u8|
            if byte == 0x5c {
                0x2f
            } else {
                byte
            },
    )
}

/// The views of byte strings.
pub open spec fn views(names: Seq<Vec<u8>>) -> Seq<Seq<u8>> {
    names.map_values(|name: Vec<u8>| name@)
}

/// Whether two byte strings are the same.
pub fn same_bytes(a: &[u8], b: &[u8]) -> (same: bool)
    ensures
        same == (a@ == b@),
{
    if a.len() != b.len() {
        return false;
    }
    let mut i: usize = 0;
    while i < a.len()
        invariant
            a@.len() == b@.len(),
            i <= a@.len(),
            forall|j: int| 0 <= j < i ==> a@[j] == b@[j],
        decreases a@.len() - i,
    {
        if a[i] != b[i] {
            return false;
        }
        i += 1;
    }
    assert(a@ =~= b@);
    true
}

/// Whether a component is `.`.
fn is_current(piece: &[u8]) -> (r: bool)
    ensures
        r == (piece@ == current()),
{
    let r = piece.len() == 1 && piece[0] == 0x2e;
    proof {
        if r {
            assert(piece@ =~= current());
        } else {
            assert(current().len() == 1 && current()[0] == 0x2e);
        }
    }
    r
}

/// Whether a component is `..`.
fn is_parent(piece: &[u8]) -> (r: bool)
    ensures
        r == (piece@ == parent()),
{
    let r = piece.len() == 2 && piece[0] == 0x2e && piece[1] == 0x2e;
    proof {
        if r {
            assert(piece@ =~= parent());
        } else {
            assert(parent().len() == 2 && parent()[0] == 0x2e && parent()[1] == 0x2e);
        }
    }
    r
}

/// Whether a path starts with a drive letter and a colon.
fn has_drive(bytes: &[u8]) -> (r: bool)
    ensures
        r == drive(bytes@),
{
    bytes.len() >= 2 && bytes[1] == 0x3a && ((0x41 <= bytes[0] && bytes[0] <= 0x5a) || (0x61
        <= bytes[0] && bytes[0] <= 0x7a))
}

/// Whether a path starts at a root or with a prefix.
fn is_rooted(bytes: &[u8], style: PathStyle) -> (r: bool)
    ensures
        r == rooted(bytes@, style),
{
    (bytes.len() > 0 && style.is_separator(bytes[0])) || (style == PathStyle::Windows && has_drive(
        bytes,
    ))
}

/// Splits a path at its separators.
fn split_pieces(bytes: &[u8], style: PathStyle) -> (parts: Vec<Vec<u8>>)
    ensures
        views(parts@) == pieces(bytes@, style),
{
    let mut parts: Vec<Vec<u8>> = Vec::new();
    let mut piece: Vec<u8> = Vec::new();
    let mut i: usize = 0;
    let ghost mut start: int = 0;
    proof {
        assert(bytes@.skip(0) =~= bytes@);
        assert(views(parts@) + pieces(bytes@, style) =~= pieces(bytes@, style));
    }
    while i < bytes.len()
        invariant
            0 <= start <= i <= bytes@.len(),
            piece@ == bytes@.subrange(start, i as int),
            forall|j: int| start <= j < i ==> !style.separates(#[trigger] bytes@[j]),
            views(parts@) + pieces(bytes@.skip(start), style) == pieces(bytes@, style),
        decreases bytes@.len() - i,
    {
        if style.is_separator(bytes[i]) {
            let ghost rest = bytes@.skip(start);
            let ghost done = views(parts@);
            parts.push(piece);
            proof {
                assert forall|j: int| 0 <= j < i - start implies !style.separates(
                    #[trigger] rest[j],
                ) by {
                    assert(rest[j] == bytes@[start + j]);
                }
                assert(rest[i - start] == bytes@[i as int]);
                first_separator_is(rest, style, i - start);
                assert(rest.take(i - start) =~= bytes@.subrange(start, i as int));
                assert(rest.skip(i - start + 1) =~= bytes@.skip(i + 1));
                assert(views(parts@) =~= done.push(rest.take(i - start)));
                assert(views(parts@) + pieces(bytes@.skip(i + 1), style) =~= done + pieces(
                    rest,
                    style,
                ));
                start = i + 1;
            }
            piece = Vec::new();
            i += 1;
            assert(piece@ =~= bytes@.subrange(start, i as int));
        } else {
            piece.push(bytes[i]);
            i += 1;
            assert(piece@ =~= bytes@.subrange(start, i as int));
        }
    }
    let ghost done = views(parts@);
    parts.push(piece);
    proof {
        let rest = bytes@.skip(start);
        assert forall|j: int| 0 <= j < rest.len() implies !style.separates(#[trigger] rest[j]) by {
            assert(rest[j] == bytes@[start + j]);
        }
        first_separator_is(rest, style, rest.len() as int);
        assert(bytes@.subrange(start, i as int) =~= rest);
        assert(views(parts@) =~= done.push(rest));
        assert(views(parts@) =~= done + pieces(rest, style));
    }
    parts
}

/// There is always a first piece.
proof fn pieces_is_not_empty(bytes: Seq<u8>, style: PathStyle)
    ensures
        pieces(bytes, style).len() > 0,
{
}

/// The components of a path.
fn split_components(bytes: &[u8], style: PathStyle) -> (parts: Vec<Vec<u8>>)
    ensures
        views(parts@) == components(bytes@, style),
{
    let all = split_pieces(bytes, style);
    let ghost texts = views(all@);
    proof {
        pieces_is_not_empty(bytes@, style);
        assert(texts[0] == all@[0]@);
    }
    let mut parts: Vec<Vec<u8>> = Vec::new();
    if all[0].len() > 0 {
        parts.push(vstd::slice::slice_to_vec(all[0].as_slice()));
    }
    let ghost head = views(parts@);
    let ghost keep = |piece: Seq<u8>| piece.len() > 0 && piece != current();
    assert(head =~= if texts[0].len() > 0 {
        seq![texts[0]]
    } else {
        Seq::empty()
    });
    let mut i: usize = 1;
    assert(texts.skip(1).take(0) =~= Seq::empty());
    assert(texts.skip(1).take(0).filter(keep) =~= Seq::empty()) by {
        reveal(Seq::filter);
    }
    assert(head + Seq::<Seq<u8>>::empty() =~= head);
    while i < all.len()
        invariant
            1 <= i <= all@.len(),
            texts == views(all@),
            views(parts@) == head + texts.skip(1).take(i - 1).filter(keep),
            forall|piece: Seq<u8>| #[trigger] keep(piece) == (piece.len() > 0 && piece
                != current()),
        decreases all@.len() - i,
    {
        let ghost before = texts.skip(1).take(i - 1);
        let ghost done = views(parts@);
        assert(texts[i as int] == all@[i as int]@);
        proof {
            assert(texts.skip(1).take(i as int) =~= before.push(texts[i as int]));
            reveal(Seq::filter);
            assert(before.push(texts[i as int]).drop_last() =~= before);
        }
        if all[i].len() > 0 && !is_current(all[i].as_slice()) {
            parts.push(vstd::slice::slice_to_vec(all[i].as_slice()));
            assert(keep(texts[i as int]));
            assert(views(parts@) =~= done.push(texts[i as int]));
            assert(views(parts@) =~= head + texts.skip(1).take(i as int).filter(keep));
        } else {
            assert(!keep(texts[i as int]));
        }
        i += 1;
    }
    assert(texts.skip(1).take(i - 1) =~= texts.skip(1));
    assert(inner_components(texts.skip(1)) == texts.skip(1).filter(keep));
    parts
}

/// Whether a component is a plain name.
fn is_plain_name(component: &[u8]) -> (r: bool)
    ensures
        r == plain_name(component@),
{
    component.len() > 0 && !is_current(component) && !is_parent(component)
}

/// Accepts exactly paths that stay below where they are applied.
pub fn is_safe_path(bytes: &[u8], style: PathStyle) -> (r: bool)
    ensures
        r == safe_path(bytes@, style),
{
    if bytes.len() == 0 || is_rooted(bytes, style) {
        return false;
    }
    let parts = split_components(bytes, style);
    let mut i: usize = 0;
    while i < parts.len()
        invariant
            i <= parts@.len(),
            bytes@.len() > 0,
            !rooted(bytes@, style),
            views(parts@) == components(bytes@, style),
            forall|j: int|
                0 <= j < i ==> plain_name(#[trigger] components(bytes@, style)[j]),
        decreases parts@.len() - i,
    {
        assert(views(parts@)[i as int] == parts@[i as int]@);
        if !is_plain_name(parts[i].as_slice()) {
            return false;
        }
        i += 1;
    }
    true
}

/// Why a path below an archive's root was refused.
#[derive(Debug, Clone, Copy, PartialEq, Eq)]
pub struct PathRefusal {
    /// Stable message without path detail.
    pub message: &'static str,
}

/// The names below the root of an archive.
pub fn names_below_root(bytes: &[u8], root: &[u8], style: PathStyle) -> (r: Result<
    Vec<Vec<u8>>,
    PathRefusal,
>)
    ensures
        match r {
            Ok(names) => below_root(bytes@, root@, style) == Ok::<Seq<Seq<u8>>, Seq<char>>(
                views(names@),
            ),
            Err(e) => below_root(bytes@, root@, style) == Err::<Seq<Seq<u8>>, Seq<char>>(
                e.message@,
            ),
        },
{
    if is_rooted(bytes, style) || !is_plain_name(root) {
        return Err(PathRefusal { message: "artifact archive root is invalid" });
    }
    let parts = split_components(bytes, style);
    let ghost all = components(bytes@, style);
    if parts.len() == 0 {
        return Err(PathRefusal { message: "artifact archive root is invalid" });
    }
    assert(views(parts@)[0] == parts@[0]@);
    if !same_bytes(parts[0].as_slice(), root) {
        return Err(PathRefusal { message: "artifact archive root is invalid" });
    }
    let mut names: Vec<Vec<u8>> = Vec::new();
    let mut i: usize = 1;
    while i < parts.len()
        invariant
            1 <= i <= parts@.len(),
            all == components(bytes@, style),
            under_root(bytes@, root@, style),
            views(parts@) == all,
            views(names@) =~= all.subrange(1, i as int),
            forall|j: int| 1 <= j < i ==> installable_name(#[trigger] all[j], style),
        decreases parts@.len() - i,
    {
        assert(views(parts@)[i as int] == parts@[i as int]@);
        let has_prefix = style == PathStyle::Windows && has_drive(parts[i].as_slice());
        if !is_plain_name(parts[i].as_slice()) || has_prefix {
            assert(!installable_name(components(bytes@, style)[i as int], style));
            return Err(PathRefusal { message: "artifact archive path is invalid" });
        }
        let ghost done = views(names@);
        names.push(vstd::slice::slice_to_vec(parts[i].as_slice()));
        i += 1;
        assert(views(names@) =~= done.push(all[i - 1]));
    }
    assert(all.subrange(1, i as int) =~= all.skip(1));
    Ok(names)
}

/// Joins names with `/`.
pub fn join_names(names: &[Vec<u8>]) -> (bytes: Vec<u8>)
    ensures
        bytes@ == joined(views(names@)),
{
    let mut bytes: Vec<u8> = Vec::new();
    let ghost all = views(names@);
    let mut i: usize = 0;
    assert(all.take(0) =~= Seq::empty());
    while i < names.len()
        invariant
            i <= names@.len(),
            all == views(names@),
            bytes@ == joined(all.take(i as int)),
        decreases names@.len() - i,
    {
        if i > 0 {
            bytes.push(0x2f);
        }
        let ghost front = bytes@;
        let name = &names[i];
        assert(all[i as int] == name@);
        let mut k: usize = 0;
        while k < name.len()
            invariant
                k <= name@.len(),
                bytes@ =~= front + with_slashes(name@).take(k as int),
            decreases name@.len() - k,
        {
            bytes.push(
                if name[k] == 0x5c {
                    0x2fu8
                } else {
                    name[k]
                },
            );
            k += 1;
        }
        assert(with_slashes(name@).take(k as int) =~= with_slashes(name@));
        i += 1;
        proof {
            let now = all.take(i as int);
            assert(now.drop_last() =~= all.take(i - 1));
            assert(now.last() == name@);
            if i == 1 {
                assert(front =~= Seq::empty());
                assert(bytes@ =~= with_slashes(name@));
            }
        }
    }
    assert(all.take(i as int) =~= all);
    bytes
}

/// Cutting at a separator cuts the pieces.
proof fn pieces_append(a: Seq<u8>, separator: u8, b: Seq<u8>, style: PathStyle)
    requires
        style.separates(separator),
    ensures
        pieces(a.push(separator) + b, style) == pieces(a, style) + pieces(b, style),
    decreases a.len(),
{
    let whole = a.push(separator) + b;
    let p = first_separator(a, style);
    first_separator_properties(a, style);
    if p >= a.len() {
        assert forall|i: int| 0 <= i < a.len() implies !style.separates(#[trigger] whole[i]) by {
            assert(whole[i] == a[i]);
        }
        first_separator_is(whole, style, a.len() as int);
        assert(whole.take(a.len() as int) =~= a);
        assert(whole.skip(a.len() + 1int) =~= b);
        assert(pieces(a, style) =~= seq![a]);
    } else {
        assert forall|i: int| 0 <= i < p implies !style.separates(#[trigger] whole[i]) by {
            assert(whole[i] == a[i]);
        }
        first_separator_is(whole, style, p as int);
        let rest = a.skip(p as int + 1);
        pieces_append(rest, separator, b, style);
        assert(whole.take(p as int) =~= a.take(p as int));
        assert(whole.skip(p as int + 1) =~= rest.push(separator) + b);
        assert(pieces(whole, style) =~= pieces(a, style) + pieces(b, style));
    }
}

/// Whether a name holds neither separator.
pub open spec fn unseparated(name: Seq<u8>) -> bool {
    forall|i: int| 0 <= i < name.len() ==> #[trigger] name[i] != 0x2f && name[i] != 0x5c
}

/// Joined names split into those names again.
proof fn joined_splits_back(names: Seq<Seq<u8>>, style: PathStyle)
    requires
        names.len() > 0,
        forall|i: int| 0 <= i < names.len() ==> unseparated(#[trigger] names[i]),
    ensures
        pieces(joined(names), style) == names,
    decreases names.len(),
{
    let last = names.last();
    assert(unseparated(names[names.len() - 1]));
    assert(with_slashes(last) =~= last);
    assert forall|i: int| 0 <= i < last.len() implies !style.separates(#[trigger] last[i]) by {}
    first_separator_is(last, style, last.len() as int);
    assert(pieces(last, style) =~= seq![last]);
    if names.len() == 1 {
        assert(names =~= seq![last]);
    } else {
        let front = names.drop_last();
        assert forall|i: int| 0 <= i < front.len() implies unseparated(#[trigger] front[i]) by {
            assert(front[i] == names[i]);
        }
        joined_splits_back(front, style);
        pieces_append(joined(front), 0x2f, last, style);
        assert(front + seq![last] =~= names);
    }
}

/// The joined path starts with its first name.
proof fn joined_starts_with_first(names: Seq<Seq<u8>>)
    requires
        names.len() > 0,
    ensures
        joined(names).len() >= names[0].len(),
        joined(names).take(names[0].len() as int) == with_slashes(names[0]),
        names.len() > 1 ==> joined(names).len() > names[0].len() && joined(
            names,
        )[names[0].len() as int] == 0x2f,
        names.len() == 1 ==> joined(names).len() == names[0].len(),
    decreases names.len(),
{
    let n = names[0].len() as int;
    if names.len() == 1 {
        assert(joined(names).take(n) =~= with_slashes(names[0]));
    } else {
        let front = names.drop_last();
        joined_starts_with_first(front);
        assert(front[0] == names[0]);
        let whole = joined(names);
        assert(whole.take(n) =~= joined(front).take(n));
        if names.len() == 2 {
            assert(whole[n] == 0x2f);
        } else {
            assert(whole[n] == joined(front)[n]);
        }
    }
}

/// What an archive may install, its inventory may list: names that were accepted below the root
/// make a path that stays below where it is applied.
pub proof fn installable_paths_are_safe(names: Seq<Seq<u8>>, style: PathStyle)
    requires
        names.len() > 0,
        forall|i: int|
            0 <= i < names.len() ==> installable_name(#[trigger] names[i], style) && unseparated(
                names[i],
            ),
    ensures
        safe_path(joined(names), style),
{
    let path = joined(names);
    joined_splits_back(names, style);
    joined_starts_with_first(names);
    let first = names[0];
    assert(installable_name(first, style) && unseparated(first));
    assert(with_slashes(first) =~= first);
    assert(path.take(first.len() as int)[0] == path[0]);
    assert(path[0] == first[0]);
    if style == PathStyle::Windows && drive(path) {
        if first.len() >= 2 {
            assert(path.take(first.len() as int)[1] == path[1]);
            assert(drive(first));
        }
    }
    assert(!rooted(path, style));
    let rest = names.skip(1);
    let keep = |piece: Seq<u8>| piece.len() > 0 && piece != current();
    assert forall|i: int| 0 <= i < rest.len() implies keep(#[trigger] rest[i]) by {
        assert(installable_name(names[i + 1], style));
    }
    filter_keeps_all(rest, keep);
    assert(components(path, style) =~= names);
}

/// Filtering by what every element satisfies changes nothing.
proof fn filter_keeps_all(s: Seq<Seq<u8>>, keep: spec_fn(Seq<u8>) -> bool)
    requires
        forall|i: int| 0 <= i < s.len() ==> keep(#[trigger] s[i]),
    ensures
        s.filter(keep) == s,
    decreases s.len(),
{
    reveal(Seq::filter);
    if s.len() > 0 {
        let front = s.drop_last();
        assert forall|i: int| 0 <= i < front.len() implies keep(#[trigger] front[i]) by {
            assert(front[i] == s[i]);
        }
        filter_keeps_all(front, keep);
        assert(keep(s[s.len() - 1]));
        assert(front.push(s.last()) =~= s);
    }
}

/// No piece holds a separator, and every byte of a piece is a byte of the path.
proof fn pieces_hold_no_separator(bytes: Seq<u8>, style: PathStyle, k: int, i: int)
    requires
        0 <= k < pieces(bytes, style).len(),
        0 <= i < pieces(bytes, style)[k].len(),
    ensures
        !style.separates(pieces(bytes, style)[k][i]),
        bytes.contains(pieces(bytes, style)[k][i]),
    decreases bytes.len(),
{
    let p = first_separator(bytes, style) as int;
    first_separator_properties(bytes, style);
    if p >= bytes.len() {
        assert(pieces(bytes, style)[0] == bytes);
        assert(bytes[i] == pieces(bytes, style)[k][i]);
    } else if k == 0 {
        assert(pieces(bytes, style)[0] == bytes.take(p));
        assert(bytes[i] == pieces(bytes, style)[k][i]);
    } else {
        let rest = bytes.skip(p + 1);
        assert(pieces(bytes, style)[k] == pieces(rest, style)[k - 1]);
        pieces_hold_no_separator(rest, style, k - 1, i);
        let m = choose|m: int| 0 <= m < rest.len() && rest[m] == pieces(rest, style)[k - 1][i];
        assert(bytes[m + p + 1] == rest[m]);
    }
}

/// Every component is a piece.
proof fn components_are_pieces(bytes: Seq<u8>, style: PathStyle, c: int) -> (k: int)
    requires
        0 <= c < components(bytes, style).len(),
    ensures
        0 <= k < pieces(bytes, style).len(),
        components(bytes, style)[c] == pieces(bytes, style)[k],
{
    let all = pieces(bytes, style);
    pieces_is_not_empty(bytes, style);
    let head: int = if all[0].len() > 0 {
        1
    } else {
        0
    };
    if c < head {
        0
    } else {
        let rest = all.skip(1);
        let keep = |piece: Seq<u8>| piece.len() > 0 && piece != current();
        assert(inner_components(rest) == rest.filter(keep));
        assert(components(bytes, style)[c] == rest.filter(keep)[c - head]);
        let m = filtered_comes_from(rest, keep, c - head);
        m + 1
    }
}

/// An element of a filtered sequence stands in the sequence.
proof fn filtered_comes_from(s: Seq<Seq<u8>>, keep: spec_fn(Seq<u8>) -> bool, c: int) -> (m: int)
    requires
        0 <= c < s.filter(keep).len(),
    ensures
        0 <= m < s.len(),
        s[m] == s.filter(keep)[c],
    decreases s.len(),
{
    reveal(Seq::filter);
    let front = s.drop_last();
    if s.len() == 0 {
        0
    } else if c < front.filter(keep).len() {
        filtered_comes_from(front, keep, c)
    } else {
        s.len() - 1
    }
}

/// Archive paths cannot escape: whatever path an archive entry names, the names accepted below the
/// root make a path that stays below where it is applied. A path with a `\` where that is no
/// separator is left out: an inventory writes it as `/`.
pub proof fn archive_paths_cannot_escape(bytes: Seq<u8>, root: Seq<u8>, style: PathStyle)
    requires
        below_root(bytes, root, style) is Ok,
        below_root(bytes, root, style)->Ok_0.len() > 0,
        style == PathStyle::Windows || !bytes.contains(0x5c),
    ensures
        safe_path(joined(below_root(bytes, root, style)->Ok_0), style),
{
    let names = below_root(bytes, root, style)->Ok_0;
    let all = components(bytes, style);
    assert forall|i: int| 0 <= i < names.len() implies installable_name(#[trigger] names[i], style)
        && unseparated(names[i]) by {
        assert(names[i] == all[i + 1]);
        assert(installable_name(all[i + 1], style));
        let k = components_are_pieces(bytes, style, i + 1);
        assert forall|m: int| 0 <= m < names[i].len() implies #[trigger] names[i][m] != 0x2f
            && names[i][m] != 0x5c by {
            pieces_hold_no_separator(bytes, style, k, m);
        }
    }
    installable_paths_are_safe(names, style);
}

/// A piece that goes up is a component that does.
proof fn parent_piece_is_refused(path: Seq<u8>, root: Seq<u8>, style: PathStyle, k: int)
    requires
        0 <= k < pieces(path, style).len(),
        pieces(path, style)[k] == parent(),
    ensures
        !safe_path(path, style),
        below_root(path, root, style) is Err,
{
    let all = pieces(path, style);
    let found = components(path, style);
    let head = if all[0].len() > 0 {
        seq![all[0]]
    } else {
        Seq::empty()
    };
    if k == 0 {
        assert(found[0] == parent());
    } else {
        let rest = all.skip(1);
        let keep = |piece: Seq<u8>| piece.len() > 0 && piece != current();
        assert(parent().len() == 2 && current().len() == 1);
        assert(rest[k - 1] == parent() && keep(rest[k - 1]));
        rest.lemma_filter_contains(keep, k - 1);
        let c = choose|c: int| 0 <= c < rest.filter(keep).len() && rest.filter(keep)[c] == parent();
        assert(inner_components(rest) == rest.filter(keep));
        assert(found[head.len() + c] == parent());
    }
}

/// No path that goes up at any place is safe, and none is found below a root: neither `..` by
/// itself, nor with anything before or behind it, whichever separators stand between.
pub proof fn going_up_is_never_safe(
    before: Seq<u8>,
    after: Seq<u8>,
    first: u8,
    second: u8,
    root: Seq<u8>,
    style: PathStyle,
)
    requires
        style.separates(first),
        style.separates(second),
    ensures
        ({
            let up = seq![0x2eu8, 0x2e];
            let last = before.push(first) + up;
            let inner = before.push(first) + (up.push(second) + after);
            let leading = up.push(second) + after;
            &&& !safe_path(up, style) && below_root(up, root, style) is Err
            &&& !safe_path(last, style) && below_root(last, root, style) is Err
            &&& !safe_path(inner, style) && below_root(inner, root, style) is Err
            &&& !safe_path(leading, style) && below_root(leading, root, style) is Err
        }),
{
    let up = seq![0x2eu8, 0x2e];
    assert(up == parent());
    assert forall|i: int| 0 <= i < up.len() implies !style.separates(#[trigger] up[i]) by {}
    first_separator_is(up, style, 2);
    assert(pieces(up, style) =~= seq![up]);
    parent_piece_is_refused(up, root, style, 0);
    let leading = up.push(second) + after;
    pieces_append(up, second, after, style);
    assert(pieces(leading, style)[0] == up);
    parent_piece_is_refused(leading, root, style, 0);
    let n = pieces(before, style).len() as int;
    pieces_append(before, first, up, style);
    assert(pieces(before.push(first) + up, style)[n] == up);
    parent_piece_is_refused(before.push(first) + up, root, style, n);
    pieces_append(before, first, leading, style);
    assert(pieces(before.push(first) + leading, style)[n] == up);
    parent_piece_is_refused(before.push(first) + leading, root, style, n);
}

/// No path from a root is safe, and none is found below another: one that begins with a separator,
/// and on Windows one that begins with a drive. The empty path is not safe either.
pub proof fn rooted_paths_are_never_safe(
    rest: Seq<u8>,
    letter: u8,
    root: Seq<u8>,
    style: PathStyle,
)
    requires
        0x41 <= letter <= 0x5a || 0x61 <= letter <= 0x7a,
    ensures
        !safe_path(seq![0x2fu8] + rest, style),
        below_root(seq![0x2fu8] + rest, root, style) is Err,
        !safe_path(seq![0x5cu8] + rest, PathStyle::Windows),
        below_root(seq![0x5cu8] + rest, root, PathStyle::Windows) is Err,
        !safe_path(seq![letter, 0x3a] + rest, PathStyle::Windows),
        below_root(seq![letter, 0x3a] + rest, root, PathStyle::Windows) is Err,
        !rooted(seq![letter, 0x3a] + rest, PathStyle::Unix),
        !safe_path(Seq::empty(), style),
{
    assert((seq![0x2fu8] + rest)[0] == 0x2f);
    assert((seq![0x5cu8] + rest)[0] == 0x5c);
    let drive_path = seq![letter, 0x3a] + rest;
    assert(drive_path[0] == letter && drive_path[1] == 0x3a);
}

/// Repeated separators, `.` between separators, and a separator at the end count for nothing.
pub proof fn idle_pieces_count_for_nothing(
    before: Seq<u8>,
    after: Seq<u8>,
    separator: u8,
    style: PathStyle,
)
    requires
        style.separates(separator),
    ensures
        ({
            let plain = components(before.push(separator) + after, style);
            let dot = seq![0x2eu8].push(separator) + after;
            let none = Seq::<u8>::empty().push(separator) + after;
            &&& components(before.push(separator) + dot, style) == plain
            &&& components(before.push(separator) + none, style) == plain
            &&& components(before.push(separator) + Seq::empty(), style) == components(
                before,
                style,
            )
        }),
{
    let keep = |piece: Seq<u8>| piece.len() > 0 && piece != current();
    let dotted = seq![0x2eu8];
    let empty = Seq::<u8>::empty();
    assert(dotted == current());
    assert forall|i: int| 0 <= i < dotted.len() implies !style.separates(#[trigger] dotted[i]) by {}
    first_separator_is(dotted, style, 1);
    assert(pieces(dotted, style) =~= seq![dotted]);
    assert(pieces(empty, style) =~= seq![empty]);
    pieces_append(dotted, separator, after, style);
    pieces_append(empty, separator, after, style);
    pieces_append(before, separator, after, style);
    pieces_append(before, separator, empty, style);
    pieces_append(before, separator, dotted.push(separator) + after, style);
    pieces_append(before, separator, empty.push(separator) + after, style);
    let front = pieces(before, style);
    let back = pieces(after, style);
    pieces_is_not_empty(before, style);
    idle_piece_goes(front.skip(1), dotted, back, keep);
    idle_piece_goes(front.skip(1), empty, back, keep);
    idle_piece_goes(front.skip(1), empty, Seq::empty(), keep);
    assert((front + (seq![dotted] + back)).skip(1) =~= front.skip(1) + (seq![dotted] + back));
    assert((front + (seq![empty] + back)).skip(1) =~= front.skip(1) + (seq![empty] + back));
    assert((front + back).skip(1) =~= front.skip(1) + back);
    assert((front + seq![empty]).skip(1) =~= front.skip(1) + (seq![empty] + Seq::empty()));
    assert(front.skip(1) + Seq::empty() =~= front.skip(1));
}

/// A piece that filtering drops does not matter.
proof fn idle_piece_goes(
    front: Seq<Seq<u8>>,
    piece: Seq<u8>,
    back: Seq<Seq<u8>>,
    keep: spec_fn(Seq<u8>) -> bool,
)
    requires
        !keep(piece),
    ensures
        (front + (seq![piece] + back)).filter(keep) == (front + back).filter(keep),
{
    Seq::filter_distributes_over_add(front, seq![piece] + back, keep);
    Seq::filter_distributes_over_add(seq![piece], back, keep);
    Seq::filter_distributes_over_add(front, back, keep);
    reveal(Seq::filter);
    let one = seq![piece];
    one.drop_last().lemma_filter_len(keep);
    assert(one.last() == piece);
    assert(one.filter(keep) == one.drop_last().filter(keep));
    assert(one.filter(keep) =~= Seq::empty());
    assert(Seq::<Seq<u8>>::empty() + back.filter(keep) =~= back.filter(keep));
}

/// What stands below an archive's root is found there, name by name, and nothing else: a path that
/// joins the root and acceptable names gives those names, and one that begins with another name is
/// refused.
pub proof fn names_below_the_root_are_found(
    root: Seq<u8>,
    other: Seq<u8>,
    names: Seq<Seq<u8>>,
    style: PathStyle,
)
    requires
        installable_name(root, style) && unseparated(root),
        installable_name(other, style) && unseparated(other),
        forall|i: int|
            0 <= i < names.len() ==> installable_name(#[trigger] names[i], style) && unseparated(
                names[i],
            ),
    ensures
        below_root(joined(seq![root] + names), root, style) == Ok::<Seq<Seq<u8>>, Seq<char>>(names),
        other != root ==> below_root(joined(seq![other] + names), root, style) == Err::<
            Seq<Seq<u8>>,
            Seq<char>,
        >("artifact archive root is invalid"@),
{
    joined_names_are_components(root, names, style);
    joined_names_are_components(other, names, style);
    assert((seq![root] + names).skip(1) =~= names);
    let found = components(joined(seq![root] + names), style);
    assert forall|i: int| 1 <= i < found.len() implies installable_name(#[trigger] found[i], style) by {
        assert(found[i] == names[i - 1]);
    }
}

/// Acceptable names in a row are the components of their path, which starts at no root.
proof fn joined_names_are_components(first: Seq<u8>, names: Seq<Seq<u8>>, style: PathStyle)
    requires
        installable_name(first, style) && unseparated(first),
        forall|i: int|
            0 <= i < names.len() ==> installable_name(#[trigger] names[i], style) && unseparated(
                names[i],
            ),
    ensures
        components(joined(seq![first] + names), style) == seq![first] + names,
        !rooted(joined(seq![first] + names), style),
{
    let all = seq![first] + names;
    let path = joined(all);
    assert forall|i: int| 0 <= i < all.len() implies unseparated(#[trigger] all[i]) by {
        if i > 0 {
            assert(all[i] == names[i - 1]);
        }
    }
    joined_splits_back(all, style);
    joined_starts_with_first(all);
    assert(with_slashes(first) =~= first);
    assert(path.take(first.len() as int)[0] == path[0]);
    if style == PathStyle::Windows && drive(path) {
        if first.len() >= 2 {
            assert(path.take(first.len() as int)[1] == path[1]);
            assert(drive(first));
        }
    }
    let rest = all.skip(1);
    assert(rest =~= names);
    let keep = |piece: Seq<u8>| piece.len() > 0 && piece != current();
    assert forall|i: int| 0 <= i < rest.len() implies keep(#[trigger] rest[i]) by {
        assert(installable_name(names[i], style));
    }
    filter_keeps_all(rest, keep);
    assert(components(path, style) =~= all);
}

/// Inventories write `/` for either separator and every other byte as it is, and one `/` between
/// each two names.
pub proof fn inventories_write_forward_slashes(names: Seq<Seq<u8>>, name: Seq<u8>, i: int)
    requires
        0 <= i < name.len(),
    ensures
        joined(seq![name]).len() == name.len(),
        joined(seq![name])[i] == if name[i] == 0x5c {
            0x2fu8
        } else {
            name[i]
        },
        names.len() > 0 ==> joined(names.push(name)) == joined(names).push(0x2f) + joined(
            seq![name],
        ),
{
    assert(names.push(name).drop_last() =~= names);
    assert(seq![name][0] == name);
}

/// A path that begins at the current directory is not safe and not below any root: its first
/// component is not a name.
pub proof fn paths_begin_with_a_name(rest: Seq<u8>, separator: u8, root: Seq<u8>, style: PathStyle)
    requires
        style.separates(separator),
    ensures
        !safe_path(seq![0x2eu8], style),
        below_root(seq![0x2eu8], root, style) is Err,
        !safe_path(seq![0x2eu8].push(separator) + rest, style),
        below_root(seq![0x2eu8].push(separator) + rest, root, style) is Err,
{
    let dotted = seq![0x2eu8];
    assert(dotted == current());
    assert forall|i: int| 0 <= i < dotted.len() implies !style.separates(#[trigger] dotted[i]) by {}
    first_separator_is(dotted, style, 1);
    assert(pieces(dotted, style) =~= seq![dotted]);
    pieces_append(dotted, separator, rest, style);
    assert(components(dotted, style)[0] == dotted);
    let path = dotted.push(separator) + rest;
    assert(pieces(path, style)[0] == dotted);
    assert(components(path, style)[0] == dotted);
}

/// On Windows a name that begins with a drive is not installed, wherever it stands below the root;
/// elsewhere it is a name like any other.
pub proof fn drives_are_no_names_on_windows(root: Seq<u8>, name: Seq<u8>, style: PathStyle)
    requires
        installable_name(root, style) && unseparated(root),
        plain_name(name) && unseparated(name),
    ensures
        below_root(joined(seq![root, name]), root, style) == if style == PathStyle::Windows
            && name.len() >= 2 && name[1] == 0x3a && (0x41 <= name[0] <= 0x5a || 0x61 <= name[0]
            <= 0x7a) {
            Err("artifact archive path is invalid"@)
        } else {
            Ok(seq![name])
        },
{
    let all = seq![root, name];
    let path = joined(all);
    assert forall|i: int| 0 <= i < all.len() implies unseparated(#[trigger] all[i]) by {}
    joined_splits_back(all, style);
    joined_starts_with_first(all);
    assert(with_slashes(root) =~= root);
    assert(path.take(root.len() as int)[0] == path[0]);
    if style == PathStyle::Windows && drive(path) {
        if root.len() >= 2 {
            assert(path.take(root.len() as int)[1] == path[1]);
            assert(drive(root));
        }
    }
    let rest = all.skip(1);
    assert(rest =~= seq![name]);
    let keep = |piece: Seq<u8>| piece.len() > 0 && piece != current();
    filter_keeps_all(rest, keep);
    assert(components(path, style) =~= all);
    assert(all.skip(1) =~= seq![name]);
    assert(components(path, style)[1] == name);
}

}
