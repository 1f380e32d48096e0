//! Recognising the receiver among the hidraw nodes.
//!
//! The node number moves between replugs, so the receiver is found by its
//! USB ids in the node's uevent text, whose `HID_ID` line looks like
//! `HID_ID=0003:0000352F:00000414`.

use vstd::prelude::*;

verus! {

/// Linux's `O_NONBLOCK` open flag. The hidraw node is opened with it, so a
/// read returns at once when no report is waiting.
pub fn libc_o_nonblock() -> (flag: i32)
    ensures
        flag == 0o4000,
{
    0o4000
}

/// The USB ids of the receiver, as they appear in an upper-cased `HID_ID`
/// with its zero padding removed.
pub open spec fn hid_match() -> Seq<char> {
    "352F:0414"@
}

/// What `str::to_uppercase` gives for a text: its Unicode upper-case form.
pub uninterp spec fn spec_to_uppercase(s: Seq<char>) -> Seq<char>;

/// `str::to_uppercase` from std. Claimed: the result depends on the text
/// alone; what it is (the Unicode case tables) is left as a name.
#[verifier::external_body]
fn to_uppercase(s: &str) -> (r: String)
    ensures
        r@ == spec_to_uppercase(s@),
{
    s.to_uppercase()
}

/// `s` with every group of four `0`s removed, scanning from the left and
/// never reusing a removed character, as `str::replace("0000", "")` does.
pub open spec fn without_zero_groups(s: Seq<char>) -> Seq<char>
    decreases s.len(),
{
    if s.len() >= 4 && s[0] == '0' && s[1] == '0' && s[2] == '0' && s[3] == '0' {
        without_zero_groups(s.skip(4))
    } else if s.len() > 0 {
        seq![s[0]] + without_zero_groups(s.skip(1))
    } else {
        s
    }
}

/// Law: the receiver is matched by its USB ids 352F (vendor) and 0414
/// (product), after removing each run of four zeros from the left: a text
/// with no such run is left as it is, and a leading run is dropped.
pub proof fn lemma_receiver_ids(s: Seq<char>)
    ensures
        hid_match() == seq!['3', '5', '2', 'F', ':', '0', '4', '1', '4'],
        without_zero_groups(seq!['0', '0', '0', '0'] + s) == without_zero_groups(s),
        (forall|i: int| 0 <= i <= s.len() - 4 ==> !(#[trigger] s[i] == '0' && s[i + 1] == '0' && s[i
            + 2] == '0' && s[i + 3] == '0')) ==> without_zero_groups(s) == s,
    decreases s.len(),
{
    reveal_strlit("352F:0414");
    assert(hid_match() =~= seq!['3', '5', '2', 'F', ':', '0', '4', '1', '4']);
    let z = seq!['0', '0', '0', '0'] + s;
    assert(z.skip(4) =~= s);
    if s.len() > 0 && (forall|i: int| 0 <= i <= s.len() - 4 ==> !(#[trigger] s[i] == '0' && s[i
        + 1] == '0' && s[i + 2] == '0' && s[i + 3] == '0')) {
        let r = s.skip(1);
        assert forall|i: int| 0 <= i <= r.len() - 4 implies !(#[trigger] r[i] == '0' && r[i + 1]
            == '0' && r[i + 2] == '0' && r[i + 3] == '0') by {
            assert(r[i] == s[i + 1]);
        }
        lemma_receiver_ids(r);
        if s.len() >= 4 {
            assert(!(s[0] == '0' && s[1] == '0' && s[2] == '0' && s[3] == '0'));
        }
        assert(seq![s[0]] + r =~= s);
    }
}

/// Does `hay` contain `needle` as a contiguous part.
pub open spec fn contains_text(hay: Seq<char>, needle: Seq<char>) -> bool {
    exists|i: int| 0 <= i <= hay.len() - needle.len() && #[trigger] hay.subrange(i, i + needle.len()) == needle
}

/// The characters of `s`.
fn chars_of(s: &str) -> (v: Vec<char>)
    ensures
        v@ == s@,
{
    let n = s.unicode_len();
    let mut v: Vec<char> = Vec::new();
    let mut i: usize = 0;
    while i < n
        invariant
            i <= n,
            n == s@.len(),
            v@ == s@.take(i as int),
        decreases n - i,
    {
        v.push(s.get_char(i));
        i = i + 1;
        assert(v@ =~= s@.take(i as int));
    }
    assert(s@.take(n as int) =~= s@);
    v
}

fn strip_zero_groups(s: &Vec<char>) -> (r: Vec<char>)
    ensures
        r@ == without_zero_groups(s@),
{
    let n = s.len();
    let mut r: Vec<char> = Vec::new();
    let mut i: usize = 0;
    assert(s@.skip(0) =~= s@);
    while i < n
        invariant
            i <= n,
            n == s@.len(),
            r@ + without_zero_groups(s@.skip(i as int)) == without_zero_groups(s@),
        decreases n - i,
    {
        let ghost rest = s@.skip(i as int);
        if n - i >= 4 && s[i] == '0' && s[i + 1] == '0' && s[i + 2] == '0' && s[i + 3] == '0' {
            assert(rest.skip(4) =~= s@.skip(i + 4));
            i = i + 4;
        } else {
            assert(rest.skip(1) =~= s@.skip(i + 1));
            assert(rest[0] == s@[i as int]);
            r.push(s[i]);
            i = i + 1;
            assert(r@ + without_zero_groups(s@.skip(i as int)) =~= without_zero_groups(s@));
        }
    }
    assert(s@.skip(n as int) =~= Seq::<char>::empty());
    assert(r@ + Seq::<char>::empty() =~= r@);
    r
}

fn contains_chars(hay: &Vec<char>, needle: &Vec<char>) -> (b: bool)
    ensures
        b == contains_text(hay@, needle@),
{
    let n = hay.len();
    let m = needle.len();
    if m > n {
        return false;
    }
    let mut i: usize = 0;
    while i <= n - m
        invariant
            m <= n,
            n == hay@.len(),
            m == needle@.len(),
            forall|j: int| 0 <= j < i ==> #[trigger] hay@.subrange(j, j + m) != needle@,
        decreases n - m + 1 - i,
    {
        let mut k: usize = 0;
        let mut same = true;
        while k < m
            invariant
                k <= m,
                i + m <= n,
                n == hay@.len(),
                m == needle@.len(),
                same == (forall|t: int| 0 <= t < k ==> hay@[i + t] == needle@[t]),
            decreases m - k,
        {
            if hay[i + k] != needle[k] {
                same = false;
            }
            k = k + 1;
        }
        if same {
            assert(hay@.subrange(i as int, i + m) =~= needle@);
            return true;
        }
        assert(hay@.subrange(i as int, i + m) != needle@) by {
            let t = choose|t: int| 0 <= t < m && hay@[i + t] != needle@[t];
            assert(hay@.subrange(i as int, i + m)[t] == hay@[i + t]);
        }
        i = i + 1;
    }
    false
}

/// Does upper-cased uevent text name the receiver: with the zero padding
/// removed, it contains `352F:0414`.
pub fn names_receiver(upper: &str) -> (b: bool)
    ensures
        b == contains_text(without_zero_groups(upper@), hid_match()),
{
    let chars = chars_of(upper);
    let stripped = strip_zero_groups(&chars);
    let needle = chars_of("352F:0414");
    contains_chars(&stripped, &needle)
}

/// Does a hidraw node's uevent text name the receiver: after upper-casing
/// it and removing the zero padding, it contains `352F:0414`.
pub open spec fn spec_is_receiver_uevent(text: Seq<char>) -> bool {
    contains_text(without_zero_groups(spec_to_uppercase(text)), hid_match())
}

/// Does a hidraw node's uevent text name the receiver: after upper-casing
/// it and removing the zero padding, it contains `352F:0414`.
pub fn is_receiver_uevent(text: &str) -> (b: bool)
    ensures
        b == spec_is_receiver_uevent(text@),
{
    let upper = to_uppercase(text);
    names_receiver(upper.as_str())
}

/// Byte-wise lexicographic order, the order of file names: `a` sorts no
/// later than `b`.
pub open spec fn bytes_le(a: Seq<u8>, b: Seq<u8>) -> bool
    decreases a.len(),
{
    if a.len() == 0 {
        true
    } else if b.len() == 0 {
        false
    } else if a[0] != b[0] {
        a[0] < b[0]
    } else {
        bytes_le(a.drop_first(), b.drop_first())
    }
}

proof fn lemma_bytes_le_total(a: Seq<u8>, b: Seq<u8>)
    ensures
        bytes_le(a, b) || bytes_le(b, a),
    decreases a.len(),
{
    if a.len() > 0 && b.len() > 0 && a[0] == b[0] {
        lemma_bytes_le_total(a.drop_first(), b.drop_first());
    }
}

proof fn lemma_bytes_le_transitive(a: Seq<u8>, b: Seq<u8>, c: Seq<u8>)
    requires
        bytes_le(a, b),
        bytes_le(b, c),
    ensures
        bytes_le(a, c),
    decreases a.len(),
{
    if a.len() > 0 && b.len() > 0 && c.len() > 0 && a[0] == b[0] && b[0] == c[0] {
        lemma_bytes_le_transitive(a.drop_first(), b.drop_first(), c.drop_first());
    }
}

/// Law: the order of names is the dictionary order of their bytes: `a`
/// sorts no later than `b` exactly when `a` is the start of `b`, or at the
/// first byte where they differ `a` has the smaller one.
pub proof fn lemma_bytes_le(a: Seq<u8>, b: Seq<u8>)
    ensures
        bytes_le(a, b) <==> (
        (a.len() <= b.len() && a == b.take(a.len() as int))
        || exists|i: int|
            0 <= i < a.len() && i < b.len() && a.take(i) == b.take(i) && #[trigger] a[i] < b[i]),
    decreases a.len(),
{
    if a.len() == 0 {
        assert(a =~= b.take(0));
    } else if b.len() == 0 {
    } else if a[0] != b[0] {
        if a[0] < b[0] {
            assert(a.take(0) =~= b.take(0));
        } else {
            assert(a != b.take(a.len() as int) || a.len() > b.len()) by {
                if a.len() <= b.len() {
                    assert(b.take(a.len() as int)[0] == b[0]);
                }
            }
            assert forall|i: int| 0 <= i < a.len() && i < b.len() && a.take(i) == b.take(i) implies !(
            #[trigger] a[i] < b[i]) by {
                if i > 0 {
                    assert(a.take(i)[0] == b.take(i)[0]);
                }
            }
        }
    } else {
        let a1 = a.drop_first();
        let b1 = b.drop_first();
        lemma_bytes_le(a1, b1);
        if a1.len() <= b1.len() && a1 == b1.take(a1.len() as int) {
            assert(a =~= seq![a[0]] + a1);
            assert(b.take(a.len() as int) =~= seq![b[0]] + b1.take(a1.len() as int));
        }
        if a.len() <= b.len() && a == b.take(a.len() as int) {
            assert(a1 =~= b1.take(a1.len() as int));
        }
        if exists|i: int|
            0 <= i < a1.len() && i < b1.len() && a1.take(i) == b1.take(i) && #[trigger] a1[i]
                < b1[i] {
            let i = choose|i: int|
                0 <= i < a1.len() && i < b1.len() && a1.take(i) == b1.take(i) && #[trigger] a1[i]
                    < b1[i];
            assert(a.take(i + 1) =~= seq![a[0]] + a1.take(i));
            assert(b.take(i + 1) =~= seq![b[0]] + b1.take(i));
            assert(a[i + 1] < b[i + 1]);
        }
        if exists|i: int|
            0 <= i < a.len() && i < b.len() && a.take(i) == b.take(i) && #[trigger] a[i] < b[i] {
            let i = choose|i: int|
                0 <= i < a.len() && i < b.len() && a.take(i) == b.take(i) && #[trigger] a[i] < b[i];
            assert(i > 0);
            assert(a1.take(i - 1) =~= a.take(i).drop_first());
            assert(b1.take(i - 1) =~= b.take(i).drop_first());
            assert(a1[i - 1] < b1[i - 1]);
        }
    }
}

/// Whether `k` is a right choice of the receiver's node among `nodes`: of
/// the nodes whose uevent names the receiver, one whose name sorts first;
/// `None` exactly when no uevent names it.
pub open spec fn receiver_choice(nodes: Seq<HidrawNode>, k: Option<usize>) -> bool {
    match k {
        Some(k) => {
            &&& k < nodes.len()
            &&& spec_is_receiver_uevent(nodes[k as int].uevent@)
            &&& forall|j: int|
                0 <= j < nodes.len() && spec_is_receiver_uevent(#[trigger] nodes[j].uevent@)
                    ==> bytes_le(nodes[k as int].name@, nodes[j].name@)
        },
        None => forall|j: int|
            0 <= j < nodes.len() ==> !spec_is_receiver_uevent(#[trigger] nodes[j].uevent@),
    }
}

/// Law: the node taken is the receiver's node whose name comes first: no
/// other node naming the receiver has a name that sorts strictly before
/// it, and when none is taken no node names the receiver.
pub proof fn lemma_receiver_choice(nodes: Seq<HidrawNode>, k: Option<usize>)
    requires
        receiver_choice(nodes, k),
    ensures
        k matches Some(i) ==> i < nodes.len() && spec_is_receiver_uevent(nodes[i as int].uevent@),
        k matches Some(i) ==> forall|j: int|
            0 <= j < nodes.len() && spec_is_receiver_uevent(#[trigger] nodes[j].uevent@)
                && nodes[j].name@ != nodes[i as int].name@ ==> !bytes_le(
                nodes[j].name@,
                nodes[i as int].name@,
            ),
        k is None ==> forall|j: int|
            0 <= j < nodes.len() ==> !spec_is_receiver_uevent(#[trigger] nodes[j].uevent@),
{
    if let Some(i) = k {
        assert forall|j: int|
            0 <= j < nodes.len() && spec_is_receiver_uevent(#[trigger] nodes[j].uevent@)
                && nodes[j].name@ != nodes[i as int].name@ implies !bytes_le(
            nodes[j].name@,
            nodes[i as int].name@,
        ) by {
            if bytes_le(nodes[j].name@, nodes[i as int].name@) {
                lemma_bytes_le_antisymmetric(nodes[j].name@, nodes[i as int].name@);
            }
        }
    }
}

proof fn lemma_bytes_le_antisymmetric(a: Seq<u8>, b: Seq<u8>)
    requires
        bytes_le(a, b),
        bytes_le(b, a),
    ensures
        a == b,
    decreases a.len(),
{
    if a.len() > 0 && b.len() > 0 {
        lemma_bytes_le_antisymmetric(a.drop_first(), b.drop_first());
        assert(a =~= seq![a[0]] + a.drop_first());
        assert(b =~= seq![b[0]] + b.drop_first());
    }
}

/// Does name `a` sort no later than name `b`.
pub fn names_in_order(a: &[u8], b: &[u8]) -> (r: bool)
    ensures
        r == bytes_le(a@, b@),
{
    let mut i: usize = 0;
    assert(a@.skip(0) =~= a@);
    assert(b@.skip(0) =~= b@);
    while i < a.len() && i < b.len()
        invariant
            i <= a@.len(),
            i <= b@.len(),
            bytes_le(a@, b@) == bytes_le(a@.skip(i as int), b@.skip(i as int)),
        decreases a@.len() - i,
    {
        let ghost sa = a@.skip(i as int);
        let ghost sb = b@.skip(i as int);
        assert(sa[0] == a@[i as int]);
        assert(sb[0] == b@[i as int]);
        if a[i] != b[i] {
            return a[i] < b[i];
        }
        assert(sa.drop_first() =~= a@.skip(i + 1));
        assert(sb.drop_first() =~= b@.skip(i + 1));
        i = i + 1;
    }
    i == a.len()
}

/// A node under `/sys/class/hidraw`: its name, and the text of its uevent.
pub struct HidrawNode {
    pub name: Vec<u8>,
    pub uevent: String,
}

/// The receiver's node among `nodes`: of those whose uevent names the
/// receiver, the one whose name sorts first. `None` when no uevent names it.
pub fn pick_receiver(nodes: &Vec<HidrawNode>) -> (k: Option<usize>)
    ensures
        receiver_choice(nodes@, k),
        match k {
            Some(k) => {
                &&& k < nodes@.len()
                &&& spec_is_receiver_uevent(nodes@[k as int].uevent@)
                &&& forall|j: int|
                    0 <= j < nodes@.len() && spec_is_receiver_uevent(#[trigger] nodes@[j].uevent@)
                        ==> bytes_le(nodes@[k as int].name@, nodes@[j].name@)
            },
            None => forall|j: int|
                0 <= j < nodes@.len() ==> !spec_is_receiver_uevent(#[trigger] nodes@[j].uevent@),
        },
{
    let mut best: Option<usize> = None;
    let mut i: usize = 0;
    while i < nodes.len()
        invariant
            i <= nodes@.len(),
            match best {
                Some(b) => {
                    &&& b < i
                    &&& spec_is_receiver_uevent(nodes@[b as int].uevent@)
                    &&& forall|j: int|
                        0 <= j < i && spec_is_receiver_uevent(#[trigger] nodes@[j].uevent@)
                            ==> bytes_le(nodes@[b as int].name@, nodes@[j].name@)
                },
                None => forall|j: int|
                    0 <= j < i ==> !spec_is_receiver_uevent(#[trigger] nodes@[j].uevent@),
            },
        decreases nodes@.len() - i,
    {
        if is_receiver_uevent(nodes[i].uevent.as_str()) {
            match best {
                None => {
                    proof {
                        lemma_bytes_le_total(nodes@[i as int].name@, nodes@[i as int].name@);
                    }
                    best = Some(i);
                },
                Some(b) => {
                    if !names_in_order(nodes[b].name.as_slice(), nodes[i].name.as_slice()) {
                        proof {
                            let nb = nodes@[b as int].name@;
                            let ni = nodes@[i as int].name@;
                            lemma_bytes_le_total(nb, ni);
                            lemma_bytes_le_total(ni, ni);
                            assert forall|j: int|
                                0 <= j < i + 1 && spec_is_receiver_uevent(
                                    #[trigger] nodes@[j].uevent@,
                                ) implies bytes_le(ni, nodes@[j].name@) by {
                                if j < i {
                                    lemma_bytes_le_transitive(ni, nb, nodes@[j].name@);
                                }
                            }
                        }
                        best = Some(i);
                    } else {
                        proof {
                            let nb = nodes@[b as int].name@;
                            assert(bytes_le(nb, nodes@[i as int].name@));
                        }
                    }
                },
            }
        }
        i = i + 1;
    }
    best
}

/// The device file of a hidraw node: `/dev/` and its name.
pub fn device_path(name: &str) -> (p: String)
    ensures
        p@ == "/dev/"@ + name@,
{
    let mut p = String::new();
    p.append("/dev/");
    p.append(name);
    p
}

} // verus!
