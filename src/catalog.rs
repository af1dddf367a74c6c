use vstd::prelude::*;
use vstd::string::{StrSliceExecFns, StringExecFns};

verus! {

/// Why an accepted catalog entry cannot be processed.
#[derive(PartialEq, Eq, Structural, Clone, Copy, Debug)]
pub enum CatalogError {
    MissingName,
    MissingCode,
}

/// The stage markers that admit a document: exactly `4` or `5`.
pub open spec fn stage_ok(v: Seq<u8>) -> bool {
    v.len() == 1 && (v[0] == 52 || v[0] == 53)
}

/// Whether a stage marker (unescaped attribute bytes) admits its document.
pub fn stage_accepted(v: &Vec<u8>) -> (r: bool)
    ensures
        r == stage_ok(v@),
{
    v.len() == 1 && (v[0] == 52 || v[0] == 53)
}

/// Whether a catalog entry is processed: `Ok(false)` where its stage
/// marker is absent or not accepted; for an accepted entry, its display
/// name and code must both be non-empty.
pub fn accept_entry(name: &String, code: &String, stage: &Option<Vec<u8>>) -> (r: Result<bool, CatalogError>)
    ensures
        r == (if !(stage matches Some(v) && stage_ok(v@)) {
            Ok::<bool, CatalogError>(false)
        } else if name@.len() == 0 {
            Err(CatalogError::MissingName)
        } else if code@.len() == 0 {
            Err(CatalogError::MissingCode)
        } else {
            Ok(true)
        }),
{
    let ok = match stage {
        Some(v) => stage_accepted(v),
        None => false,
    };
    if !ok {
        Ok(false)
    } else if name.as_str().unicode_len() == 0 {
        Err(CatalogError::MissingName)
    } else if code.as_str().unicode_len() == 0 {
        Err(CatalogError::MissingCode)
    } else {
        Ok(true)
    }
}

/// The name of the file that holds the document with the given code:
/// `udhr_<code>.xml`.
pub fn file_name_for(code: &str) -> (r: String)
    ensures
        r@ == seq!['u', 'd', 'h', 'r', '_'] + code@ + seq!['.', 'x', 'm', 'l'],
{
    proof {
        reveal_strlit("udhr_");
        reveal_strlit(".xml");
    }
    let mut f = String::from_str("udhr_");
    f.append(code);
    f.append(".xml");
    assert(f@ =~= seq!['u', 'd', 'h', 'r', '_'] + code@ + seq!['.', 'x', 'm', 'l']);
    f
}

} // verus!
