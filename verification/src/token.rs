//! Token definitions and holdings as they are stored in account data, with
//! their byte layout: a one-byte variant tag followed by the fields in order.
use vstd::prelude::*;

use vstd::bytes::{
    spec_u128_from_le_bytes, spec_u32_from_le_bytes, lemma_auto_spec_u128_to_from_le_bytes,
    lemma_auto_spec_u32_to_from_le_bytes,
};
use vstd::utf8::encode_utf8;

use crate::account::{AccountId, ACCOUNT_ID_LEN};
use crate::approval::Authority;
use crate::codec::{
    id_bytes, lemma_take_id_canonical, lemma_take_id_inverse, lemma_take_opt_id_canonical,
    lemma_take_opt_id_inverse, lemma_take_string_canonical, lemma_take_string_inverse,
    lemma_take_u128_canonical, lemma_take_u128_inverse, lemma_take_u8_canonical,
    lemma_take_u8_front, opt_id_bytes, string_bytes, string_fits, u32_bytes, take_id, take_opt_id,
    take_string, take_u128, take_u8, u128_bytes, read_id, read_opt_id, read_string, read_u128,
    read_u8, rest, write_id, write_opt_id, write_string, write_u128, bool_bytes, take_bool,
    lemma_take_bool_inverse, lemma_take_bool_canonical, read_bool, write_bool,
};

verus! {

/// A token definition: its name, its supply, and, for tokens with a mint
/// authority, who may mint.
#[derive(Debug)]
pub enum TokenDefinition {
    Fungible { name: String, total_supply: u128, metadata_id: Option<AccountId> },
    NonFungible { name: String, printable_supply: u128, metadata_id: AccountId },
    FungibleWithAuthority {
        name: String,
        total_supply: u128,
        metadata_id: Option<AccountId>,
        authority: Authority,
    },
}

/// The mathematical value of a [`TokenDefinition`]: names as character
/// sequences, the authority as its current admin.
pub enum TokenDefinitionView {
    Fungible { name: Seq<char>, total_supply: u128, metadata_id: Option<AccountId> },
    NonFungible { name: Seq<char>, printable_supply: u128, metadata_id: AccountId },
    FungibleWithAuthority {
        name: Seq<char>,
        total_supply: u128,
        metadata_id: Option<AccountId>,
        authority: Option<AccountId>,
    },
}

impl View for TokenDefinition {
    type V = TokenDefinitionView;

    open spec fn view(&self) -> TokenDefinitionView {
        match self {
            TokenDefinition::Fungible { name, total_supply, metadata_id } => {
                TokenDefinitionView::Fungible {
                    name: name@,
                    total_supply: *total_supply,
                    metadata_id: *metadata_id,
                }
            },
            TokenDefinition::NonFungible { name, printable_supply, metadata_id } => {
                TokenDefinitionView::NonFungible {
                    name: name@,
                    printable_supply: *printable_supply,
                    metadata_id: *metadata_id,
                }
            },
            TokenDefinition::FungibleWithAuthority {
                name,
                total_supply,
                metadata_id,
                authority,
            } => TokenDefinitionView::FungibleWithAuthority {
                name: name@,
                total_supply: *total_supply,
                metadata_id: *metadata_id,
                authority: authority@,
            },
        }
    }
}

impl TokenDefinitionView {
    /// The token's name.
    pub open spec fn name(self) -> Seq<char> {
        match self {
            TokenDefinitionView::Fungible { name, .. } => name,
            TokenDefinitionView::NonFungible { name, .. } => name,
            TokenDefinitionView::FungibleWithAuthority { name, .. } => name,
        }
    }

    /// Whether the definition can be stored: its name fits a `u32` length.
    pub open spec fn fits(self) -> bool {
        string_fits(self.name())
    }
}

/// The stored bytes of a token definition.
pub open spec fn definition_bytes(d: TokenDefinitionView) -> Seq<u8> {
    match d {
        TokenDefinitionView::Fungible { name, total_supply, metadata_id } => seq![0u8] + (
        string_bytes(name) + (u128_bytes(total_supply) + opt_id_bytes(metadata_id))),
        TokenDefinitionView::NonFungible { name, printable_supply, metadata_id } => seq![1u8] + (
        string_bytes(name) + (u128_bytes(printable_supply) + id_bytes(metadata_id))),
        TokenDefinitionView::FungibleWithAuthority {
            name,
            total_supply,
            metadata_id,
            authority,
        } => seq![2u8] + (string_bytes(name) + (u128_bytes(total_supply) + (opt_id_bytes(
            metadata_id,
        ) + opt_id_bytes(authority)))),
    }
}

/// The token definition stored in `b`, if `b` is the stored form of one.
pub open spec fn parse_definition(b: Seq<u8>) -> Option<TokenDefinitionView> {
    if exists|d: TokenDefinitionView| d.fits() && definition_bytes(d) == b {
        Some(choose|d: TokenDefinitionView| d.fits() && definition_bytes(d) == b)
    } else {
        None
    }
}

/// Reads a token definition field by field; all bytes must be used.
spec fn take_definition(b: Seq<u8>) -> Option<TokenDefinitionView> {
    match take_u8(b) {
        None => None,
        Some((tag, r0)) => match take_string(r0) {
            None => None,
            Some((name, r1)) => match take_u128(r1) {
                None => None,
                Some((supply, r2)) => if tag == 0 {
                    match take_opt_id(r2) {
                        Some((metadata_id, r3)) => if r3.len() == 0 {
                            Some(
                                TokenDefinitionView::Fungible {
                                    name,
                                    total_supply: supply,
                                    metadata_id,
                                },
                            )
                        } else {
                            None
                        },
                        None => None,
                    }
                } else if tag == 1 {
                    match take_id(r2) {
                        Some((metadata_id, r3)) => if r3.len() == 0 {
                            Some(
                                TokenDefinitionView::NonFungible {
                                    name,
                                    printable_supply: supply,
                                    metadata_id,
                                },
                            )
                        } else {
                            None
                        },
                        None => None,
                    }
                } else if tag == 2 {
                    match take_opt_id(r2) {
                        Some((metadata_id, r3)) => match take_opt_id(r3) {
                            Some((authority, r4)) => if r4.len() == 0 {
                                Some(
                                    TokenDefinitionView::FungibleWithAuthority {
                                        name,
                                        total_supply: supply,
                                        metadata_id,
                                        authority,
                                    },
                                )
                            } else {
                                None
                            },
                            None => None,
                        },
                        None => None,
                    }
                } else {
                    None
                },
            },
        },
    }
}

proof fn lemma_take_definition_inverse(d: TokenDefinitionView)
    requires
        d.fits(),
    ensures
        take_definition(definition_bytes(d)) == Some(d),
{
    let e = Seq::<u8>::empty();
    match d {
        TokenDefinitionView::Fungible { name, total_supply, metadata_id } => {
            let r3 = opt_id_bytes(metadata_id);
            let r2 = u128_bytes(total_supply) + r3;
            let r1 = string_bytes(name) + r2;
            lemma_take_u8_front(0u8, r1);
            lemma_take_string_inverse(name, r2);
            lemma_take_u128_inverse(total_supply, r3);
            assert(r3 == r3 + e);
            lemma_take_opt_id_inverse(metadata_id, e);
        },
        TokenDefinitionView::NonFungible { name, printable_supply, metadata_id } => {
            let r3 = id_bytes(metadata_id);
            let r2 = u128_bytes(printable_supply) + r3;
            let r1 = string_bytes(name) + r2;
            lemma_take_u8_front(1u8, r1);
            lemma_take_string_inverse(name, r2);
            lemma_take_u128_inverse(printable_supply, r3);
            assert(r3 == r3 + e);
            lemma_take_id_inverse(metadata_id, e);
        },
        TokenDefinitionView::FungibleWithAuthority {
            name,
            total_supply,
            metadata_id,
            authority,
        } => {
            let r4 = opt_id_bytes(authority);
            let r3 = opt_id_bytes(metadata_id) + r4;
            let r2 = u128_bytes(total_supply) + r3;
            let r1 = string_bytes(name) + r2;
            lemma_take_u8_front(2u8, r1);
            lemma_take_string_inverse(name, r2);
            lemma_take_u128_inverse(total_supply, r3);
            lemma_take_opt_id_inverse(metadata_id, r4);
            assert(r4 == r4 + e);
            lemma_take_opt_id_inverse(authority, e);
        },
    }
}

proof fn lemma_take_definition_canonical(b: Seq<u8>)
    ensures
        take_definition(b) matches Some(d) ==> d.fits() && definition_bytes(d) == b,
{
    if let Some(d) = take_definition(b) {
        let (tag, r0) = take_u8(b).unwrap();
        lemma_take_u8_canonical(b);
        lemma_take_string_canonical(r0);
        let (name, r1) = take_string(r0).unwrap();
        lemma_take_u128_canonical(r1);
        let (supply, r2) = take_u128(r1).unwrap();
        lemma_take_opt_id_canonical(r2);
        lemma_take_id_canonical(r2);
        if tag == 0 {
            let (m, r3) = take_opt_id(r2).unwrap();
            assert(r3 =~= Seq::<u8>::empty());
            assert(b =~= definition_bytes(d));
        } else if tag == 1 {
            let (m, r3) = take_id(r2).unwrap();
            assert(r3 =~= Seq::<u8>::empty());
            assert(b =~= definition_bytes(d));
        } else {
            let (m, r3) = take_opt_id(r2).unwrap();
            lemma_take_opt_id_canonical(r3);
            let (a, r4) = take_opt_id(r3).unwrap();
            assert(r4 =~= Seq::<u8>::empty());
            assert(b =~= definition_bytes(d));
        }
    }
}

proof fn lemma_parse_definition_is_take(b: Seq<u8>)
    ensures
        parse_definition(b) == take_definition(b),
{
    lemma_take_definition_canonical(b);
    if exists|d: TokenDefinitionView| d.fits() && definition_bytes(d) == b {
        let d = choose|d: TokenDefinitionView| d.fits() && definition_bytes(d) == b;
        lemma_take_definition_inverse(d);
    }
}

/// Storing a definition and reading it back gives the same definition.
pub proof fn lemma_definition_roundtrip(d: TokenDefinitionView)
    requires
        d.fits(),
    ensures
        parse_definition(definition_bytes(d)) == Some(d),
{
    lemma_take_definition_inverse(d);
    lemma_parse_definition_is_take(definition_bytes(d));
}

/// Bytes that read as a definition are exactly that definition's stored
/// form: the layout has one encoding per definition.
pub proof fn lemma_definition_canonical(b: Seq<u8>)
    ensures
        parse_definition(b) matches Some(d) ==> d.fits() && definition_bytes(d) == b,
{
    lemma_take_definition_canonical(b);
    lemma_parse_definition_is_take(b);
}

/// Two definitions with the same stored bytes are the same definition.
pub proof fn lemma_definition_bytes_injective(d1: TokenDefinitionView, d2: TokenDefinitionView)
    requires
        d1.fits(),
        d2.fits(),
        definition_bytes(d1) == definition_bytes(d2),
    ensures
        d1 == d2,
{
    lemma_take_definition_inverse(d1);
    lemma_take_definition_inverse(d2);
}

/// A mint authority costs a fungible definition one option tag byte, plus
/// the admin's identifier while the authority is active.
pub proof fn lemma_authority_storage_overhead(
    name: Seq<char>,
    total_supply: u128,
    metadata_id: Option<AccountId>,
    admin: Option<AccountId>,
)
    ensures
        definition_bytes(
            TokenDefinitionView::FungibleWithAuthority {
                name,
                total_supply,
                metadata_id,
                authority: admin,
            },
        ).len() == definition_bytes(
            TokenDefinitionView::Fungible { name, total_supply, metadata_id },
        ).len() + 1 + if admin is Some {
            ACCOUNT_ID_LEN as int
        } else {
            0
        },
{
    broadcast use vstd::array::group_array_axioms;

}

/// A token definition with an authority stores it last: a one byte and the
/// admin's 32 raw bytes in their order while active, a zero byte once
/// renounced.
pub proof fn lemma_definition_authority_layout(d: TokenDefinitionView)
    ensures
        match d {
            TokenDefinitionView::FungibleWithAuthority { authority, .. } => {
                let b = definition_bytes(d);
                match authority {
                    Some(a) => b.len() >= 33 && b[b.len() - 33] == 1 && b.subrange(
                        b.len() - 32,
                        b.len() as int,
                    ) == a.value@,
                    None => b.len() >= 1 && b[b.len() - 1] == 0,
                }
            },
            _ => true,
        },
{
    broadcast use vstd::array::group_array_axioms;

    if let TokenDefinitionView::FungibleWithAuthority {
        name,
        total_supply,
        metadata_id,
        authority,
    } = d {
        let b = definition_bytes(d);
        let prefix = seq![2u8] + string_bytes(name) + u128_bytes(total_supply) + opt_id_bytes(
            metadata_id,
        );
        assert(b =~= prefix + opt_id_bytes(authority));
        if let Some(a) = authority {
            assert(b.subrange(b.len() - 32, b.len() as int) =~= a.value@);
        }
    }
}

/// A token definition is stored as: its variant index (zero fungible, one
/// non-fungible, two fungible with authority) in one byte; the length of the
/// name's UTF-8 form as a little-endian `u32`; that UTF-8 form; the supply as
/// a little-endian `u128`; then for a fungible token the metadata option and,
/// with an authority, the authority option, where an option is a zero byte
/// for none or a one byte and the identifier's 32 bytes in order; for a
/// non-fungible token the metadata identifier's 32 bytes.
pub proof fn lemma_definition_layout(d: TokenDefinitionView)
    requires
        d.fits(),
    ensures
        ({
            let b = definition_bytes(d);
            let u = encode_utf8(d.name());
            let n = u.len() as int;
            let opt = |o: Option<AccountId>|
                match o {
                    None => seq![0u8],
                    Some(a) => seq![1u8] + a.value@,
                };
            &&& b.len() >= 21 + n
            &&& b[0] == match d {
                TokenDefinitionView::Fungible { .. } => 0u8,
                TokenDefinitionView::NonFungible { .. } => 1u8,
                TokenDefinitionView::FungibleWithAuthority { .. } => 2u8,
            }
            &&& spec_u32_from_le_bytes(b.subrange(1, 5)) == n
            &&& b.subrange(5, 5 + n) == u
            &&& spec_u128_from_le_bytes(b.subrange(5 + n, 21 + n)) == match d {
                TokenDefinitionView::Fungible { total_supply, .. } => total_supply,
                TokenDefinitionView::NonFungible { printable_supply, .. } => printable_supply,
                TokenDefinitionView::FungibleWithAuthority { total_supply, .. } => total_supply,
            }
            &&& b.subrange(21 + n, b.len() as int) == match d {
                TokenDefinitionView::Fungible { metadata_id, .. } => opt(metadata_id),
                TokenDefinitionView::NonFungible { metadata_id, .. } => metadata_id.value@,
                TokenDefinitionView::FungibleWithAuthority { metadata_id, authority, .. } => opt(
                    metadata_id,
                ) + opt(authority),
            }
        }),
{
    lemma_auto_spec_u128_to_from_le_bytes();
    lemma_auto_spec_u32_to_from_le_bytes();
    let b = definition_bytes(d);
    let u = encode_utf8(d.name());
    let n = u.len() as int;
    assert((n as u32) as int == n);
    match d {
        TokenDefinitionView::Fungible { name, total_supply, metadata_id } => {
            let t = opt_id_bytes(metadata_id);
            assert(b =~= seq![0u8] + u32_bytes_of(n) + u + u128_bytes(total_supply) + t);
            assert(b.subrange(1, 5) =~= u32_bytes_of(n));
            assert(b.subrange(5, 5 + n) =~= u);
            assert(b.subrange(5 + n, 21 + n) =~= u128_bytes(total_supply));
            assert(b.subrange(21 + n, b.len() as int) =~= t);
        },
        TokenDefinitionView::NonFungible { name, printable_supply, metadata_id } => {
            let t = id_bytes(metadata_id);
            assert(b =~= seq![1u8] + u32_bytes_of(n) + u + u128_bytes(printable_supply) + t);
            assert(b.subrange(1, 5) =~= u32_bytes_of(n));
            assert(b.subrange(5, 5 + n) =~= u);
            assert(b.subrange(5 + n, 21 + n) =~= u128_bytes(printable_supply));
            assert(b.subrange(21 + n, b.len() as int) =~= t);
        },
        TokenDefinitionView::FungibleWithAuthority { name, total_supply, metadata_id, authority } => {
            let t = opt_id_bytes(metadata_id) + opt_id_bytes(authority);
            assert(b =~= seq![2u8] + u32_bytes_of(n) + u + u128_bytes(total_supply) + t);
            assert(b.subrange(1, 5) =~= u32_bytes_of(n));
            assert(b.subrange(5, 5 + n) =~= u);
            assert(b.subrange(5 + n, 21 + n) =~= u128_bytes(total_supply));
            assert(b.subrange(21 + n, b.len() as int) =~= t);
        },
    }
}

spec fn u32_bytes_of(n: int) -> Seq<u8> {
    u32_bytes(n as u32)
}

/// A holding is stored as: its variant index (zero fungible, one NFT
/// master, two printed copy) in one byte; its definition's identifier's 32
/// bytes in order; then the balance or print balance as a little-endian
/// `u128`, or the owned flag as a zero or one byte.
pub proof fn lemma_holding_layout_fields(h: TokenHolding)
    ensures
        ({
            let b = holding_bytes(h);
            &&& b[0] == match h {
                TokenHolding::Fungible { .. } => 0u8,
                TokenHolding::NftMaster { .. } => 1u8,
                TokenHolding::NftPrintedCopy { .. } => 2u8,
            }
            &&& b.subrange(1, 33) == h.spec_definition_id().value@
            &&& match h {
                TokenHolding::Fungible { balance, .. } => b.len() == 49
                    && spec_u128_from_le_bytes(b.subrange(33, 49)) == balance,
                TokenHolding::NftMaster { print_balance, .. } => b.len() == 49
                    && spec_u128_from_le_bytes(b.subrange(33, 49)) == print_balance,
                TokenHolding::NftPrintedCopy { owned, .. } => b.len() == 34 && b[33] == (if owned {
                    1u8
                } else {
                    0u8
                }),
            }
        }),
{
    lemma_auto_spec_u128_to_from_le_bytes();
    lemma_holding_layout(h);
    let b = holding_bytes(h);
    match h {
        TokenHolding::Fungible { definition_id, balance } => {
            assert(b.subrange(33, 49) =~= u128_bytes(balance));
        },
        TokenHolding::NftMaster { definition_id, print_balance } => {
            assert(b.subrange(33, 49) =~= u128_bytes(print_balance));
        },
        TokenHolding::NftPrintedCopy { .. } => {},
    }
}

impl TokenDefinition {
    /// The mint authority, for a definition that has one.
    pub fn authority(&self) -> (res: Option<&Authority>)
        ensures
            match self@ {
                TokenDefinitionView::FungibleWithAuthority { authority, .. } => res matches Some(
                    a,
                ) && a@ == authority,
                _ => res is None,
            },
    {
        match self {
            TokenDefinition::FungibleWithAuthority { authority, .. } => Some(authority),
            _ => None,
        }
    }

    /// The mint authority, for a definition that has one, to change in place;
    /// nothing but the authority can change through it.
    pub fn authority_mut(&mut self) -> (res: Option<&mut Authority>)
        ensures
            match old(self)@ {
                TokenDefinitionView::FungibleWithAuthority {
                    name,
                    total_supply,
                    metadata_id,
                    authority,
                } => res matches Some(a) && a@ == authority && final(self)@
                    == (TokenDefinitionView::FungibleWithAuthority {
                    name,
                    total_supply,
                    metadata_id,
                    authority: final(a)@,
                }),
                _ => res is None && final(self)@ == old(self)@,
            },
    {
        match self {
            TokenDefinition::FungibleWithAuthority { authority, .. } => Some(authority),
            _ => None,
        }
    }

    /// The stored bytes of this definition.
    pub fn to_data(&self) -> (res: Vec<u8>)
        requires
            self@.fits(),
        ensures
            res@ == definition_bytes(self@),
            match self@ {
                TokenDefinitionView::FungibleWithAuthority { authority, .. } => match authority {
                    Some(a) => res@.len() >= 33 && res@[res@.len() - 33] == 1 && res@.subrange(
                        res@.len() - 32,
                        res@.len() as int,
                    ) == a.value@,
                    None => res@.len() >= 1 && res@[res@.len() - 1] == 0,
                },
                _ => true,
            },
    {
        proof {
            lemma_definition_authority_layout(self@);
        }
        let mut out: Vec<u8> = Vec::new();
        match self {
            TokenDefinition::Fungible { name, total_supply, metadata_id } => {
                out.push(0u8);
                write_string(&mut out, name);
                write_u128(&mut out, *total_supply);
                write_opt_id(&mut out, metadata_id);
            },
            TokenDefinition::NonFungible { name, printable_supply, metadata_id } => {
                out.push(1u8);
                write_string(&mut out, name);
                write_u128(&mut out, *printable_supply);
                write_id(&mut out, metadata_id);
            },
            TokenDefinition::FungibleWithAuthority {
                name,
                total_supply,
                metadata_id,
                authority,
            } => {
                out.push(2u8);
                write_string(&mut out, name);
                write_u128(&mut out, *total_supply);
                write_opt_id(&mut out, metadata_id);
                write_opt_id(&mut out, &authority.admin());
            },
        }
        proof {
            assert(out@ =~= definition_bytes(self@));
        }
        out
    }

    /// Reads the definition stored in `data`; `None` where `data` is not the
    /// stored form of any definition.
    pub fn try_from_data(data: &[u8]) -> (res: Option<TokenDefinition>)
        ensures
            match res {
                Some(d) => parse_definition(data@) == Some(d@),
                None => parse_definition(data@) is None,
            },
    {
        proof {
            lemma_parse_definition_is_take(data@);
            assert(rest(data@, 0) =~= data@);
        }
        let (tag, p0) = match read_u8(data, 0) {
            Some(x) => x,
            None => return None,
        };
        let (name, p1) = match read_string(data, p0) {
            Some(x) => x,
            None => return None,
        };
        let (supply, p2) = match read_u128(data, p1) {
            Some(x) => x,
            None => return None,
        };
        if tag == 0 {
            let (metadata_id, p3) = match read_opt_id(data, p2) {
                Some(x) => x,
                None => return None,
            };
            if p3 == data.len() {
                Some(TokenDefinition::Fungible { name, total_supply: supply, metadata_id })
            } else {
                None
            }
        } else if tag == 1 {
            let (metadata_id, p3) = match read_id(data, p2) {
                Some(x) => x,
                None => return None,
            };
            if p3 == data.len() {
                Some(TokenDefinition::NonFungible { name, printable_supply: supply, metadata_id })
            } else {
                None
            }
        } else if tag == 2 {
            let (metadata_id, p3) = match read_opt_id(data, p2) {
                Some(x) => x,
                None => return None,
            };
            let (admin, p4) = match read_opt_id(data, p3) {
                Some(x) => x,
                None => return None,
            };
            if p4 == data.len() {
                let authority = match admin {
                    Some(a) => Authority::new(a),
                    None => Authority::renounced(),
                };
                Some(
                    TokenDefinition::FungibleWithAuthority {
                        name,
                        total_supply: supply,
                        metadata_id,
                        authority,
                    },
                )
            } else {
                None
            }
        } else {
            None
        }
    }
}

/// What one account holds of a token.
#[derive(Clone, Copy, Debug)]
pub enum TokenHolding {
    Fungible { definition_id: AccountId, balance: u128 },
    NftMaster { definition_id: AccountId, print_balance: u128 },
    NftPrintedCopy { definition_id: AccountId, owned: bool },
}

/// The stored bytes of a holding.
pub open spec fn holding_bytes(h: TokenHolding) -> Seq<u8> {
    match h {
        TokenHolding::Fungible { definition_id, balance } => seq![0u8] + (id_bytes(definition_id)
            + u128_bytes(balance)),
        TokenHolding::NftMaster { definition_id, print_balance } => seq![1u8] + (id_bytes(
            definition_id,
        ) + u128_bytes(print_balance)),
        TokenHolding::NftPrintedCopy { definition_id, owned } => seq![2u8] + (id_bytes(
            definition_id,
        ) + bool_bytes(owned)),
    }
}

/// The holding stored in `b`, if `b` is the stored form of one.
pub open spec fn parse_holding(b: Seq<u8>) -> Option<TokenHolding> {
    if exists|h: TokenHolding| holding_bytes(h) == b {
        Some(choose|h: TokenHolding| holding_bytes(h) == b)
    } else {
        None
    }
}

/// Reads a holding field by field; all bytes must be used.
spec fn take_holding(b: Seq<u8>) -> Option<TokenHolding> {
    match take_u8(b) {
        None => None,
        Some((tag, r0)) => match take_id(r0) {
            None => None,
            Some((definition_id, r1)) => if tag == 0 || tag == 1 {
                match take_u128(r1) {
                    Some((amount, r2)) => if r2.len() == 0 {
                        if tag == 0 {
                            Some(TokenHolding::Fungible { definition_id, balance: amount })
                        } else {
                            Some(TokenHolding::NftMaster { definition_id, print_balance: amount })
                        }
                    } else {
                        None
                    },
                    None => None,
                }
            } else if tag == 2 {
                match take_bool(r1) {
                    Some((owned, r2)) => if r2.len() == 0 {
                        Some(TokenHolding::NftPrintedCopy { definition_id, owned })
                    } else {
                        None
                    },
                    None => None,
                }
            } else {
                None
            },
        },
    }
}

proof fn lemma_take_holding_inverse(h: TokenHolding)
    ensures
        take_holding(holding_bytes(h)) == Some(h),
{
    let e = Seq::<u8>::empty();
    match h {
        TokenHolding::Fungible { definition_id, balance } => {
            let r2 = u128_bytes(balance);
            lemma_take_u8_front(0u8, id_bytes(definition_id) + r2);
            lemma_take_id_inverse(definition_id, r2);
            assert(r2 == r2 + e);
            lemma_take_u128_inverse(balance, e);
        },
        TokenHolding::NftMaster { definition_id, print_balance } => {
            let r2 = u128_bytes(print_balance);
            lemma_take_u8_front(1u8, id_bytes(definition_id) + r2);
            lemma_take_id_inverse(definition_id, r2);
            assert(r2 == r2 + e);
            lemma_take_u128_inverse(print_balance, e);
        },
        TokenHolding::NftPrintedCopy { definition_id, owned } => {
            let r2 = bool_bytes(owned);
            lemma_take_u8_front(2u8, id_bytes(definition_id) + r2);
            lemma_take_id_inverse(definition_id, r2);
            assert(r2 == r2 + e);
            lemma_take_bool_inverse(owned, e);
        },
    }
}

proof fn lemma_take_holding_canonical(b: Seq<u8>)
    ensures
        take_holding(b) matches Some(h) ==> holding_bytes(h) == b,
{
    if let Some(h) = take_holding(b) {
        let (tag, r0) = take_u8(b).unwrap();
        lemma_take_u8_canonical(b);
        lemma_take_id_canonical(r0);
        let (definition_id, r1) = take_id(r0).unwrap();
        lemma_take_u128_canonical(r1);
        lemma_take_bool_canonical(r1);
        if tag == 2 {
            let (owned, r2) = take_bool(r1).unwrap();
            assert(r2 =~= Seq::<u8>::empty());
        } else {
            let (amount, r2) = take_u128(r1).unwrap();
            assert(r2 =~= Seq::<u8>::empty());
        }
        assert(b =~= holding_bytes(h));
    }
}

proof fn lemma_parse_holding_is_take(b: Seq<u8>)
    ensures
        parse_holding(b) == take_holding(b),
{
    lemma_take_holding_canonical(b);
    if exists|h: TokenHolding| holding_bytes(h) == b {
        let h = choose|h: TokenHolding| holding_bytes(h) == b;
        lemma_take_holding_inverse(h);
    }
}

/// Storing a holding and reading it back gives the same holding.
pub proof fn lemma_holding_roundtrip(h: TokenHolding)
    ensures
        parse_holding(holding_bytes(h)) == Some(h),
{
    lemma_take_holding_inverse(h);
    lemma_parse_holding_is_take(holding_bytes(h));
}

/// Bytes that read as a holding are exactly that holding's stored form.
pub proof fn lemma_holding_canonical(b: Seq<u8>)
    ensures
        parse_holding(b) matches Some(h) ==> holding_bytes(h) == b,
{
    lemma_take_holding_canonical(b);
    lemma_parse_holding_is_take(b);
}

/// A holding stores its variant tag, then the 32 raw bytes of its
/// definition's identifier in their order.
pub proof fn lemma_holding_layout(h: TokenHolding)
    ensures
        holding_bytes(h).len() >= 33,
        holding_bytes(h).subrange(1, 33) == h.spec_definition_id().value@,
{
    broadcast use vstd::array::group_array_axioms;

    let b = holding_bytes(h);
    match h {
        TokenHolding::Fungible { definition_id, balance } => {
            assert(b =~= seq![0u8] + definition_id.value@ + u128_bytes(balance));
        },
        TokenHolding::NftMaster { definition_id, print_balance } => {
            assert(b =~= seq![1u8] + definition_id.value@ + u128_bytes(print_balance));
        },
        TokenHolding::NftPrintedCopy { definition_id, owned } => {
            assert(b =~= seq![2u8] + definition_id.value@ + bool_bytes(owned));
        },
    }
    assert(b.subrange(1, 33) =~= h.spec_definition_id().value@);
}

impl TokenHolding {
    /// The definition this holding belongs to.
    pub open spec fn spec_definition_id(self) -> AccountId {
        match self {
            TokenHolding::Fungible { definition_id, .. } => definition_id,
            TokenHolding::NftMaster { definition_id, .. } => definition_id,
            TokenHolding::NftPrintedCopy { definition_id, .. } => definition_id,
        }
    }

    /// The empty holding that a fresh account starts with for a definition.
    pub open spec fn spec_zeroized(definition_id: AccountId, definition: TokenDefinitionView) -> TokenHolding {
        match definition {
            TokenDefinitionView::NonFungible { .. } => TokenHolding::NftPrintedCopy {
                definition_id,
                owned: false,
            },
            _ => TokenHolding::Fungible { definition_id, balance: 0 },
        }
    }

    /// The definition this holding belongs to.
    pub fn definition_id(&self) -> (res: AccountId)
        ensures
            res == self.spec_definition_id(),
    {
        match self {
            TokenHolding::Fungible { definition_id, .. } => *definition_id,
            TokenHolding::NftMaster { definition_id, .. } => *definition_id,
            TokenHolding::NftPrintedCopy { definition_id, .. } => *definition_id,
        }
    }

    /// An empty holding of the token defined by `definition` at
    /// `definition_id`: a zero balance for fungible tokens, an unowned copy
    /// for non-fungible ones.
    pub fn zeroized_from_definition(definition_id: AccountId, definition: &TokenDefinition) -> (res:
        TokenHolding)
        ensures
            res == TokenHolding::spec_zeroized(definition_id, definition@),
    {
        match definition {
            TokenDefinition::NonFungible { .. } => TokenHolding::NftPrintedCopy {
                definition_id,
                owned: false,
            },
            _ => TokenHolding::Fungible { definition_id, balance: 0 },
        }
    }

    /// The stored bytes of this holding.
    pub fn to_data(&self) -> (res: Vec<u8>)
        ensures
            res@ == holding_bytes(*self),
            res@.len() >= 33,
            res@.subrange(1, 33) == self.spec_definition_id().value@,
    {
        proof {
            lemma_holding_layout(*self);
        }
        let mut out: Vec<u8> = Vec::new();
        match self {
            TokenHolding::Fungible { definition_id, balance } => {
                out.push(0u8);
                write_id(&mut out, definition_id);
                write_u128(&mut out, *balance);
            },
            TokenHolding::NftMaster { definition_id, print_balance } => {
                out.push(1u8);
                write_id(&mut out, definition_id);
                write_u128(&mut out, *print_balance);
            },
            TokenHolding::NftPrintedCopy { definition_id, owned } => {
                out.push(2u8);
                write_id(&mut out, definition_id);
                write_bool(&mut out, *owned);
            },
        }
        proof {
            assert(out@ =~= holding_bytes(*self));
        }
        out
    }

    /// Reads the holding stored in `data`; `None` where `data` is not the
    /// stored form of any holding.
    pub fn try_from_data(data: &[u8]) -> (res: Option<TokenHolding>)
        ensures
            res == parse_holding(data@),
    {
        proof {
            lemma_parse_holding_is_take(data@);
            assert(rest(data@, 0) =~= data@);
        }
        let (tag, p0) = match read_u8(data, 0) {
            Some(x) => x,
            None => return None,
        };
        let (definition_id, p1) = match read_id(data, p0) {
            Some(x) => x,
            None => return None,
        };
        if tag == 0 || tag == 1 {
            let (amount, p2) = match read_u128(data, p1) {
                Some(x) => x,
                None => return None,
            };
            if p2 != data.len() {
                None
            } else if tag == 0 {
                Some(TokenHolding::Fungible { definition_id, balance: amount })
            } else {
                Some(TokenHolding::NftMaster { definition_id, print_balance: amount })
            }
        } else if tag == 2 {
            let (owned, p2) = match read_bool(data, p1) {
                Some(x) => x,
                None => return None,
            };
            if p2 == data.len() {
                Some(TokenHolding::NftPrintedCopy { definition_id, owned })
            } else {
                None
            }
        } else {
            None
        }
    }
}

} // verus!
