use vstd::prelude::*;

verus! {

/// Mock signature: not for production use.
#[derive(Clone, Debug, PartialEq, Eq, PartialOrd, Ord, Hash)]
pub struct Signature(pub String);

/// Mock peer identifier, a human-readable name: not for production use.
#[derive(Clone, Debug, PartialEq, Eq, PartialOrd, Ord, Hash)]
pub struct PeerId {
    id: String,
}

impl PeerId {
    /// The name of this peer.
    pub closed spec fn view(&self) -> Seq<char> {
        self.id@
    }

    pub fn new(id: &str) -> (r: PeerId)
        ensures
            r@ == id@,
    {
        PeerId { id: id.to_owned() }
    }

    /// Mock check of a signature: every signature passes.
    pub fn verify_signature(&self, _signature: &Signature, _data: &[u8]) -> (r: bool)
        ensures
            r,
    {
        true
    }

    /// The public identity of this peer, which is the peer itself.
    pub fn public_id(&self) -> (r: &PeerId)
        ensures
            r == self,
    {
        self
    }

    /// Mock signature of any data: "of " followed by the peer's name.
    pub fn sign_detached(&self, _data: &[u8]) -> (r: Signature)
        ensures
            r.0@ == "of "@ + self@,
    {
        let mut text = String::new();
        append(&mut text, "of ");
        append(&mut text, self.id.as_str());
        Signature(text)
    }
}

/// Relies on `String::push_str`: appends the characters of `tail`.
#[verifier::external_body]
fn append(text: &mut String, tail: &str)
    ensures
        final(text)@ == old(text)@ + tail@,
{
    text.push_str(tail)
}

/// Mock network event: not for production use.
#[derive(Clone, Debug, PartialEq, Eq, PartialOrd, Ord)]
pub struct Transaction(pub String);

impl Transaction {
    pub fn new(id: &str) -> (r: Transaction)
        ensures
            r.0@ == id@,
    {
        Transaction(id.to_owned())
    }
}

/// How many mock names there are.
pub open spec fn name_count() -> nat {
    20
}

/// The mock name at index `i`.
pub open spec fn name_of(i: int) -> Seq<char> {
    if i == 0 {
        "Alice"@
    } else if i == 1 {
        "Bob"@
    } else if i == 2 {
        "Carol"@
    } else if i == 3 {
        "Dave"@
    } else if i == 4 {
        "Eric"@
    } else if i == 5 {
        "Fred"@
    } else if i == 6 {
        "Gina"@
    } else if i == 7 {
        "Hank"@
    } else if i == 8 {
        "Iris"@
    } else if i == 9 {
        "Judy"@
    } else if i == 10 {
        "Kent"@
    } else if i == 11 {
        "Lucy"@
    } else if i == 12 {
        "Mike"@
    } else if i == 13 {
        "Nina"@
    } else if i == 14 {
        "Oran"@
    } else if i == 15 {
        "Paul"@
    } else if i == 16 {
        "Quin"@
    } else if i == 17 {
        "Rose"@
    } else if i == 18 {
        "Stan"@
    } else if i == 19 {
        "Tina"@
    } else {
        Seq::empty()
    }
}

fn name_at(i: usize) -> (r: &'static str)
    requires
        i < name_count(),
    ensures
        r@ == name_of(i as int),
{
    match i {
        0 => "Alice",
        1 => "Bob",
        2 => "Carol",
        3 => "Dave",
        4 => "Eric",
        5 => "Fred",
        6 => "Gina",
        7 => "Hank",
        8 => "Iris",
        9 => "Judy",
        10 => "Kent",
        11 => "Lucy",
        12 => "Mike",
        13 => "Nina",
        14 => "Oran",
        15 => "Paul",
        16 => "Quin",
        17 => "Rose",
        18 => "Stan",
        19 => "Tina",
        _ => "",
    }
}

pub fn names_len() -> (r: usize)
    ensures
        r == name_count(),
{
    20
}

/// Mock peer identifiers with the first `count` names, in order.
pub fn create_ids(count: usize) -> (r: Vec<PeerId>)
    requires
        count <= name_count(),
    ensures
        r@.len() == count,
        forall|i: int| 0 <= i < count ==> #[trigger] r@[i]@ == name_of(i),
{
    let mut ids: Vec<PeerId> = Vec::new();
    let mut i: usize = 0;
    while i < count
        invariant
            i <= count,
            count <= name_count(),
            ids@.len() == i,
            forall|j: int| 0 <= j < i ==> #[trigger] ids@[j]@ == name_of(j),
        decreases count - i,
    {
        ids.push(PeerId::new(name_at(i)));
        i = i + 1;
    }
    ids
}

} // verus!
