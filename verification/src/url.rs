//! Building the request URL against the fixed service endpoint, and the laws
//! that relate the URL's query parameters to the request parameters.

use vstd::prelude::*;
use vstd::string::*;
use crate::numerals::{dec_rep, digit_char, push_decimal};
use crate::params::{type_token, DataType, RequestParameters};
use crate::text::{
    contains_at, contains_seq, has_char, lemma_absent_char_blocks_needle, lemma_has_char_concat,
    lemma_has_char_index,
};

verus! {

/// The fixed base endpoint of the remote service.
pub const API_URL: &'static str = "https://qrng.anu.edu.au/API/jsonI.php";

/// The number of values the lottery draw always requests.
pub const LOTTO_FETCH_LENGTH: u16 = 10;

/// The characters of the URL built for well-formed request parameters: the
/// base endpoint, the length and type query parameters, and a size
/// parameter exactly when a block size is present.
pub open spec fn url_chars(p: RequestParameters) -> Seq<char> {
    "https://qrng.anu.edu.au/API/jsonI.php"@ + "?length="@ + dec_rep(p.length as nat) + "&type="@
        + type_token(p.data_type) + (if p.block_size is Some {
        "&size="@ + dec_rep(p.block_size->0 as nat)
    } else {
        Seq::<char>::empty()
    })
}

/// Build the request URL for resolved parameters.
pub fn build_url(p: &RequestParameters) -> (r: String)
    ensures
        r@ == url_chars(*p),
{
    let mut url = String::from_str(API_URL);
    url.append("?length=");
    push_decimal(&mut url, p.length);
    url.append("&type=");
    let token = p.data_type.to_lowercase();
    url.append(token.as_str());
    match p.block_size {
        Some(size) => {
            url.append("&size=");
            push_decimal(&mut url, size);
            proof {
                assert(url@ =~= url_chars(*p));
            }
        },
        None => {
            proof {
                assert(url@ =~= url_chars(*p));
            }
        },
    }
    url
}

/// The parameters the lottery draw always uses: ten unsigned bytes.
pub fn lotto_parameters() -> (r: RequestParameters)
    ensures
        r.wf(),
        r.data_type is Uint8,
        r.length == LOTTO_FETCH_LENGTH,
        r.block_size is None,
{
    RequestParameters { data_type: DataType::Uint8, length: LOTTO_FETCH_LENGTH, block_size: None }
}

/// Every character of a decimal numeral is a digit.
proof fn lemma_dec_rep_digits(n: nat)
    ensures
        forall|i: int| 0 <= i < dec_rep(n).len() ==> crate::parse::is_dec_digit(
            #[trigger] dec_rep(n)[i],
        ),
    decreases n,
{
    if n < 10 {
        assert(dec_rep(n)[0] == digit_char(n));
        assert(crate::parse::is_dec_digit(digit_char(n)));
    } else {
        lemma_dec_rep_digits(n / 10);
        let head = dec_rep(n / 10);
        assert forall|i: int| 0 <= i < dec_rep(n).len() implies crate::parse::is_dec_digit(
            #[trigger] dec_rep(n)[i],
        ) by {
            if i < head.len() {
                assert(dec_rep(n)[i] == head[i]);
            } else {
                assert(dec_rep(n)[i] == digit_char(n % 10));
                assert(crate::parse::is_dec_digit(digit_char(n % 10)));
            }
        }
    }
}

/// A decimal numeral never holds the letter `z`.
proof fn lemma_dec_rep_no_z(n: nat)
    ensures
        !has_char(dec_rep(n), 'z'),
{
    lemma_dec_rep_digits(n);
    lemma_has_char_index(dec_rep(n), 'z');
}

/// None of the fixed pieces of the URL, nor a data type token, holds the
/// letter `z`; only the size parameter's name does.
proof fn lemma_fixed_parts_no_z()
    ensures
        !has_char("https://qrng.anu.edu.au/API/jsonI.php"@, 'z'),
        !has_char("?length="@, 'z'),
        !has_char("&type="@, 'z'),
        !has_char("uint8"@, 'z'),
        !has_char("uint16"@, 'z'),
        !has_char("hex16"@, 'z'),
{
    reveal_strlit("https://qrng.anu.edu.au/API/jsonI.php");
    reveal_strlit("?length=");
    reveal_strlit("&type=");
    reveal_strlit("uint8");
    reveal_strlit("uint16");
    reveal_strlit("hex16");
    lemma_has_char_index("https://qrng.anu.edu.au/API/jsonI.php"@, 'z');
    lemma_has_char_index("?length="@, 'z');
    lemma_has_char_index("&type="@, 'z');
    lemma_has_char_index("uint8"@, 'z');
    lemma_has_char_index("uint16"@, 'z');
    lemma_has_char_index("hex16"@, 'z');
}

/// The built URL carries the requested length and data type as query
/// parameters, and carries a size parameter exactly when the data type is
/// the hex-string one: for the other data types, `size=` never occurs in
/// the URL, whatever block size was supplied.
pub proof fn lemma_url_query_parameters(p: RequestParameters)
    requires
        p.wf(),
    ensures
        contains_seq(url_chars(p), "length="@ + dec_rep(p.length as nat)),
        contains_seq(url_chars(p), "type="@ + type_token(p.data_type)),
        p.data_type is Hex16 ==> contains_seq(
            url_chars(p),
            "size="@ + dec_rep(p.block_size->0 as nat),
        ),
        !(p.data_type is Hex16) ==> !contains_seq(url_chars(p), "size="@),
{
    let url = url_chars(p);
    let base = "https://qrng.anu.edu.au/API/jsonI.php"@;
    let dec = dec_rep(p.length as nat);
    let token = type_token(p.data_type);
    reveal_strlit("https://qrng.anu.edu.au/API/jsonI.php");
    reveal_strlit("?length=");
    reveal_strlit("length=");
    reveal_strlit("&type=");
    reveal_strlit("type=");
    reveal_strlit("&size=");
    reveal_strlit("size=");
    reveal_strlit("uint8");
    reveal_strlit("uint16");
    reveal_strlit("hex16");

    let needle_len = "length="@ + dec;
    let start_len: int = base.len() as int + 1;
    assert(url.subrange(start_len, start_len + needle_len.len() as int) =~= needle_len);
    assert(contains_at(url, needle_len, start_len));

    let needle_ty = "type="@ + token;
    let start_ty: int = base.len() as int + 8 + dec.len() as int + 1;
    assert(url.subrange(start_ty, start_ty + needle_ty.len() as int) =~= needle_ty);
    assert(contains_at(url, needle_ty, start_ty));

    if p.data_type is Hex16 {
        let dec2 = dec_rep(p.block_size->0 as nat);
        let needle_sz = "size="@ + dec2;
        let start_sz: int = base.len() as int + 8 + dec.len() as int + 6 + token.len() as int + 1;
        assert(url.subrange(start_sz, start_sz + needle_sz.len() as int) =~= needle_sz);
        assert(contains_at(url, needle_sz, start_sz));
    } else {
        lemma_fixed_parts_no_z();
        lemma_dec_rep_no_z(p.length as nat);
        lemma_has_char_concat(base, "?length="@, 'z');
        lemma_has_char_concat(base + "?length="@, dec, 'z');
        lemma_has_char_concat(base + "?length="@ + dec, "&type="@, 'z');
        lemma_has_char_concat(base + "?length="@ + dec + "&type="@, token, 'z');
        assert(url =~= base + "?length="@ + dec + "&type="@ + token);
        assert(!has_char(url, 'z'));
        assert("size="@[2] == 'z');
        lemma_absent_char_blocks_needle(url, "size="@, 'z', 2);
    }
}

} // verus!
