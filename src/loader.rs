use vstd::prelude::*;

verus! {

/// Why an object file cannot be loaded.
#[derive(Clone, Copy, Debug, PartialEq, Eq)]
pub enum LoadError {
    /// The file is empty: it holds no load origin.
    MissingOrigin,
    /// The file ends in the middle of a word.
    Truncated,
}

/// A program image: the address of its first word, and its words.
pub struct ObjectImage {
    pub origin: u16,
    pub words: Vec<u16>,
}

/// The `i`-th big-endian 16-bit word of `bytes`.
pub open spec fn be_word(bytes: Seq<u8>, i: int) -> u16 {
    (bytes[2 * i] as int * 256 + bytes[2 * i + 1] as int) as u16
}

/// Reads an object file: big-endian 16-bit words, the first the load origin,
/// the rest the words to store from there on.
pub fn parse_object(bytes: &[u8]) -> (r: Result<ObjectImage, LoadError>)
    ensures
        (r is Err && r->Err_0 == LoadError::MissingOrigin) <==> bytes@.len() == 0,
        (r is Err && r->Err_0 == LoadError::Truncated) <==> bytes@.len() % 2 == 1,
        r is Ok ==> ({
            let img = r->Ok_0;
            &&& img.origin == be_word(bytes@, 0)
            &&& img.words@.len() == bytes@.len() / 2 - 1
            &&& forall|i: int|
                0 <= i < img.words@.len() ==> #[trigger] img.words@[i] == be_word(bytes@, i + 1)
        }),
{
    if bytes.len() % 2 == 1 {
        return Err(LoadError::Truncated);
    }
    if bytes.len() == 0 {
        return Err(LoadError::MissingOrigin);
    }
    let len = bytes.len();
    let n = len / 2;
    let origin = (bytes[0] as u16) * 256 + bytes[1] as u16;
    let mut words: Vec<u16> = Vec::new();
    let mut k: usize = 1;
    while k < n
        invariant
            n == bytes@.len() / 2,
            2 * n == bytes@.len(),
            len == bytes@.len(),
            1 <= k <= n,
            words@.len() == k - 1,
            forall|i: int| 0 <= i < words@.len() ==> #[trigger] words@[i] == be_word(bytes@, i + 1),
        decreases n - k,
    {
        let w = (bytes[2 * k] as u16) * 256 + bytes[2 * k + 1] as u16;
        words.push(w);
        k += 1;
    }
    Ok(ObjectImage { origin, words })
}

} // verus!
