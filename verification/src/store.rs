//! What is written for an entry: the permission bits a configuration names,
//! and the parts of the issued material that go into a file.

use vstd::prelude::*;
use crate::config::CertContent;
use crate::config::FileSave;
use crate::config::UserAndGroup;
use crate::text::chars_of;

verus! {

/// Whether `c` is one of the eight octal digits.
pub open spec fn is_octal(c: char) -> bool {
    '0' <= c && c <= '7'
}

/// The number written by a run of octal digits, most significant first.
pub open spec fn octal(s: Seq<char>) -> nat
    decreases s.len(),
{
    if s.len() == 0 {
        0
    } else {
        octal(s.drop_last()) * 8 + (s.last() as nat - '0' as nat) as nat
    }
}

/// The permission bits that a mode such as `0640` stands for: one to four
/// octal digits.
pub open spec fn mode_of(s: Seq<char>) -> Option<u32> {
    if 1 <= s.len() <= 4 && (forall|i: int| 0 <= i < s.len() ==> is_octal(#[trigger] s[i])) {
        Some(octal(s) as u32)
    } else {
        None
    }
}

/// Four octal digits are worth at most `0o7777`.
pub proof fn lemma_octal_bound(s: Seq<char>)
    requires
        s.len() <= 4,
        forall|i: int| 0 <= i < s.len() ==> is_octal(#[trigger] s[i]),
    ensures
        octal(s) <= 0o7777,
{
    reveal_with_fuel(octal, 5);
    if s.len() >= 1 {
        assert(is_octal(s[s.len() - 1]));
        let s1 = s.drop_last();
        if s1.len() >= 1 {
            assert(is_octal(s[s.len() - 2]));
            let s2 = s1.drop_last();
            if s2.len() >= 1 {
                assert(is_octal(s[s.len() - 3]));
                let s3 = s2.drop_last();
                if s3.len() >= 1 {
                    assert(is_octal(s[s.len() - 4]));
                }
            }
        }
    }
}

/// Reads a file mode.
pub fn parse_mode(s: &str) -> (r: Option<u32>)
    ensures
        r == mode_of(s@),
        r matches Some(bits) ==> bits <= 0o7777,
{
    let chars = chars_of(s);
    let n = chars.len();
    if n < 1 || n > 4 {
        return None;
    }
    let mut bits: u32 = 0;
    let mut i: usize = 0;
    while i < n
        invariant
            chars@ == s@,
            n == chars@.len(),
            n <= 4,
            i <= n,
            forall|j: int| 0 <= j < i ==> is_octal(#[trigger] chars@[j]),
            bits as nat == octal(chars@.subrange(0, i as int)),
            bits <= 0o7777,
        decreases n - i,
    {
        let c = chars[i];
        if !(c >= '0' && c <= '7') {
            proof {
                assert(!is_octal(s@[i as int]));
            }
            return None;
        }
        let ghost before = chars@.subrange(0, i as int);
        let ghost after = chars@.subrange(0, i + 1);
        proof {
            assert(after.drop_last() =~= before);
            assert(after.last() == c);
            assert forall|j: int| 0 <= j < after.len() implies is_octal(#[trigger] after[j]) by {
                assert(after[j] == chars@[j]);
            }
            lemma_octal_bound(after);
        }
        bits = bits * 8 + (c as u32 - '0' as u32);
        i = i + 1;
    }
    proof {
        assert(chars@.subrange(0, n as int) =~= chars@);
    }
    Some(bits)
}

/// What the server issued: the certificate, the chain of its issuers and
/// the private key, each in DER, with the certificate's validity.
#[derive(Clone, Debug, PartialEq, Eq)]
pub struct IssuedCertificate {
    pub certificate: Vec<u8>,
    pub chain: Vec<Vec<u8>>,
    pub key: Vec<u8>,
    pub issued_at: u64,
    pub expires_at: u64,
}

/// What a block of material is.
#[derive(Clone, Copy, Debug, PartialEq, Eq)]
pub enum BlockKind {
    Certificate,
    PrivateKey,
}

/// One object to encode.
#[derive(Clone, Debug, PartialEq, Eq)]
pub struct Block {
    pub kind: BlockKind,
    pub der: Vec<u8>,
}

/// Why material cannot be encoded.
#[derive(Clone, Copy, Debug, PartialEq, Eq)]
pub enum EncodeError {
    /// The content asks for the certificate and the material has none.
    MissingCertificate,
    /// The content asks for the key and the material has none.
    MissingKey,
    /// The encoding needs both certificate and key, and the content lacks one.
    InsufficientContent,
}

/// A block as sequences.
pub struct BlockView {
    pub kind: BlockKind,
    pub der: Seq<u8>,
}

impl View for Block {
    type V = BlockView;

    open spec fn view(&self) -> BlockView {
        BlockView { kind: self.kind, der: self.der@ }
    }
}

/// The blocks of a chain, in the chain's order.
pub open spec fn chain_blocks(chain: Seq<Vec<u8>>) -> Seq<BlockView> {
    Seq::new(chain.len(), |i: int| BlockView { kind: BlockKind::Certificate, der: chain[i]@ })
}

/// The blocks that a content selects from the material: the certificate,
/// then the chain, then the key, each where the content holds it.
pub open spec fn selection(material: IssuedCertificate, content: CertContent) -> Seq<BlockView> {
    let first = if content.has_certificate() {
        seq![BlockView { kind: BlockKind::Certificate, der: material.certificate@ }]
    } else {
        Seq::empty()
    };
    let middle = if content.has_chain() {
        chain_blocks(material.chain@)
    } else {
        Seq::empty()
    };
    let last = if content.has_key() {
        seq![BlockView { kind: BlockKind::PrivateKey, der: material.key@ }]
    } else {
        Seq::empty()
    };
    first + middle + last
}

/// Why a content cannot be taken from the material, if it cannot: a part
/// that the content holds is empty in the material. A chain may be empty.
pub open spec fn selection_error(material: IssuedCertificate, content: CertContent) -> Option<
    EncodeError,
> {
    if content.has_certificate() && material.certificate@.len() == 0 {
        Some(EncodeError::MissingCertificate)
    } else if content.has_key() && material.key@.len() == 0 {
        Some(EncodeError::MissingKey)
    } else {
        None
    }
}

/// The view of each block.
pub open spec fn block_views(blocks: Seq<Block>) -> Seq<BlockView> {
    Seq::new(blocks.len(), |i: int| blocks[i]@)
}

fn copy_bytes(bytes: &Vec<u8>) -> (r: Vec<u8>)
    ensures
        r@ == bytes@,
{
    let mut r: Vec<u8> = Vec::new();
    let mut i: usize = 0;
    while i < bytes.len()
        invariant
            i <= bytes@.len(),
            r@ == bytes@.take(i as int),
        decreases bytes@.len() - i,
    {
        r.push(bytes[i]);
        proof {
            assert(r@ =~= bytes@.take(i + 1));
        }
        i = i + 1;
    }
    proof {
        assert(bytes@.take(bytes@.len() as int) =~= bytes@);
    }
    r
}

/// Takes from the material the blocks that the content holds. This fails
/// exactly when a part asked for is missing: the key is never made up from
/// what else is there.
pub fn select(material: &IssuedCertificate, content: CertContent) -> (r: Result<
    Vec<Block>,
    EncodeError,
>)
    ensures
        match r {
            Ok(blocks) => selection_error(*material, content) is None && block_views(blocks@)
                == selection(*material, content),
            Err(e) => selection_error(*material, content) == Some(e),
        },
{
    if content.with_certificate() && material.certificate.len() == 0 {
        return Err(EncodeError::MissingCertificate);
    }
    if content.with_key() && material.key.len() == 0 {
        return Err(EncodeError::MissingKey);
    }
    let mut blocks: Vec<Block> = Vec::new();
    if content.with_certificate() {
        blocks.push(Block { kind: BlockKind::Certificate, der: copy_bytes(&material.certificate) });
    }
    let ghost first = block_views(blocks@);
    proof {
        assert(first =~= if content.has_certificate() {
            seq![BlockView { kind: BlockKind::Certificate, der: material.certificate@ }]
        } else {
            Seq::empty()
        });
        assert(chain_blocks(material.chain@.take(0)) =~= Seq::<BlockView>::empty());
        assert(first + Seq::<BlockView>::empty() =~= first);
    }
    if content.with_chain() {
        let mut i: usize = 0;
        while i < material.chain.len()
            invariant
                i <= material.chain@.len(),
                block_views(blocks@) == first + chain_blocks(material.chain@.take(i as int)),
            decreases material.chain@.len() - i,
        {
            let ghost before = block_views(blocks@);
            blocks.push(Block { kind: BlockKind::Certificate, der: copy_bytes(&material.chain[i]) });
            proof {
                assert(block_views(blocks@) =~= before.push(
                    BlockView { kind: BlockKind::Certificate, der: material.chain@[i as int]@ },
                ));
                assert(chain_blocks(material.chain@.take(i + 1)) =~= chain_blocks(
                    material.chain@.take(i as int),
                ).push(BlockView { kind: BlockKind::Certificate, der: material.chain@[i as int]@ }));
                assert(block_views(blocks@) =~= first + chain_blocks(material.chain@.take(i + 1)));
            }
            i = i + 1;
        }
        proof {
            assert(material.chain@.take(material.chain@.len() as int) =~= material.chain@);
        }
    }
    let ghost middle = if content.has_chain() {
        chain_blocks(material.chain@)
    } else {
        Seq::empty()
    };
    proof {
        assert(block_views(blocks@) =~= first + middle);
    }
    if content.with_key() {
        let ghost before = block_views(blocks@);
        blocks.push(Block { kind: BlockKind::PrivateKey, der: copy_bytes(&material.key) });
        proof {
            assert(block_views(blocks@) =~= before.push(
                BlockView { kind: BlockKind::PrivateKey, der: material.key@ },
            ));
        }
    }
    proof {
        assert(block_views(blocks@) =~= selection(*material, content));
    }
    Ok(blocks)
}

} // verus!
