//! The transactional file patcher: stage the new contents beside the
//! target under the backup name, verify the change by a bounded line
//! diff, then commit it onto the target or roll everything back. After
//! any outcome the staging file is gone and, on failure, the target is
//! byte-identical to what it was before the call.

use vstd::prelude::*;
use vstd::string::*;

use crate::args::FlagChange;
use crate::diff::{diff_changed, diff_ok, line_diff, verify_file_diff};
use crate::steam::{set_config_launch_args, spec_new_contents};
use crate::volume::{agrees_on, Volume};
use crate::Error;

verus! {

/// The path of the backup / staging file beside a target file.
pub open spec fn backup_name(p: Seq<char>) -> Seq<char> {
    p + ".backup"@
}

/// The backup path always differs from the target path.
pub proof fn lemma_backup_ne(p: Seq<char>)
    ensures
        backup_name(p) != p,
{
    reveal_strlit(".backup");
    assert(backup_name(p).len() == p.len() + 7);
}

/// The backup path beside a target path.
pub fn backup_path_of(path: &str) -> (r: String)
    ensures
        r@ == backup_name(path@),
{
    let mut b = String::from_str(path);
    b.append(".backup");
    b
}

/// What patching one account file must produce: the committed contents
/// of the target on success, or nothing when the operation must fail.
/// It fails when the target is missing, the document is broken, the
/// staging location is blocked by a read-only file, the diff has the
/// wrong shape, or a needed commit hits a read-only target.
pub open spec fn spec_patch_outcome(v: Volume, p: Seq<char>, c: FlagChange) -> Option<Seq<char>> {
    if !v.has(p) {
        None
    } else {
        let oldc = v.contents_of(p);
        match spec_new_contents(oldc, c) {
            None => None,
            Some(None) => Some(oldc),
            Some(Some(nc)) => {
                if v.has(backup_name(p)) && v.read_only_of(backup_name(p)) {
                    None
                } else if !diff_ok(line_diff(oldc, nc)) {
                    None
                } else if diff_changed(line_diff(oldc, nc)) {
                    if v.read_only_of(p) {
                        None
                    } else {
                        Some(nc)
                    }
                } else {
                    Some(oldc)
                }
            },
        }
    }
}

/// Patch one account's configuration file under the flag change `c`:
/// read it, build the new contents, stage them under the backup name,
/// verify the staged change by a bounded line diff, and commit or roll
/// back. On any failure the target file is untouched, and no staging
/// file of this call remains behind.
pub fn patch_account_file(vol: &mut Volume, path: &str, c: &FlagChange) -> (r: Result<(), Error>)
    requires
        old(vol).wf(),
    ensures
        final(vol).wf(),
        !old(vol).has(backup_name(path@)) ==> !final(vol).has(backup_name(path@)),
        forall|q: Seq<char>|
            q != path@ && q != backup_name(path@) ==> agrees_on(*old(vol), *final(vol), q),
        r is Ok <==> spec_patch_outcome(*old(vol), path@, *c) is Some,
        r is Ok ==> final(vol).has(path@) && Some(final(vol).contents_of(path@))
            == spec_patch_outcome(*old(vol), path@, *c),
        r is Err ==> agrees_on(*old(vol), *final(vol), path@),
        final(vol).has(path@) == old(vol).has(path@),
        old(vol).has(path@) ==> final(vol).read_only_of(path@) == old(vol).read_only_of(path@),
{
    let ghost v0 = *vol;
    let ghost bpn = backup_name(path@);
    let bp = backup_path_of(path);
    proof {
        lemma_backup_ne(path@);
    }
    let contents = match vol.read(path) {
        Some(cts) => cts,
        None => {
            return Err(
                Error::Custom(String::from_str("Failed to open the Steam config file")),
            );
        },
    };
    let nc = match set_config_launch_args(contents.as_str(), c) {
        Ok(Some(nc)) => nc,
        Ok(None) => {
            return Ok(());
        },
        Err(e) => {
            return Err(e);
        },
    };
    if let Err(_) = vol.create(bp.as_str(), nc.as_str()) {
        return Err(Error::Custom(String::from_str("Failed to create a backup file")));
    }
    let ghost v1 = *vol;
    proof {
        assert(agrees_on(v0, v1, path@));
    }
    match verify_file_diff(contents.as_str(), nc.as_str()) {
        Err(e) => {
            let rr = vol.remove(bp.as_str());
            assert(rr is Ok);
            proof {
                assert forall|q: Seq<char>| q != path@ && q != bpn implies agrees_on(
                    v0,
                    *vol,
                    q,
                ) by {
                    assert(agrees_on(v0, v1, q));
                    assert(agrees_on(v1, *vol, q));
                }
                assert(agrees_on(v1, *vol, path@));
            }
            let mut m = String::from_str("Failed to verify the backup file: ");
            m.append(e.message().as_str());
            Err(Error::Custom(m))
        },
        Ok(false) => {
            let rr = vol.remove(bp.as_str());
            assert(rr is Ok);
            proof {
                assert forall|q: Seq<char>| q != path@ && q != bpn implies agrees_on(
                    v0,
                    *vol,
                    q,
                ) by {
                    assert(agrees_on(v0, v1, q));
                    assert(agrees_on(v1, *vol, q));
                }
                assert(agrees_on(v1, *vol, path@));
                assert(vol.contents_of(path@) == v0.contents_of(path@));
            }
            Ok(())
        },
        Ok(true) => {
            if vol.is_read_only(path) {
                let rr = vol.remove(bp.as_str());
                assert(rr is Ok);
                proof {
                    assert forall|q: Seq<char>| q != path@ && q != bpn implies agrees_on(
                        v0,
                        *vol,
                        q,
                    ) by {
                        assert(agrees_on(v0, v1, q));
                        assert(agrees_on(v1, *vol, q));
                    }
                    assert(agrees_on(v1, *vol, path@));
                }
                return Err(
                    Error::Custom(String::from_str("Failed to replace the Steam config file")),
                );
            }
            let cr = vol.create(path, nc.as_str());
            assert(cr is Ok);
            let ghost v2 = *vol;
            proof {
                assert(agrees_on(v1, v2, bpn));
            }
            let rr = vol.remove(bp.as_str());
            assert(rr is Ok);
            proof {
                assert forall|q: Seq<char>| q != path@ && q != bpn implies agrees_on(
                    v0,
                    *vol,
                    q,
                ) by {
                    assert(agrees_on(v0, v1, q));
                    assert(agrees_on(v1, v2, q));
                    assert(agrees_on(v2, *vol, q));
                }
                assert(agrees_on(v2, *vol, path@));
                assert(vol.contents_of(path@) == nc@);
            }
            Ok(())
        },
    }
}

/// Whether a text is a well-formed JSON document, as the serializer that
/// owns the target file will parse it. The answer depends on the text
/// alone.
pub uninterp spec fn json_accepts(s: Seq<char>) -> bool;

/// Relies on serde_json::from_str: whether the text parses as JSON.
#[verifier::external_body]
fn json_text_valid(s: &str) -> (r: bool)
    ensures
        r == json_accepts(s@),
{
    serde_json::from_str::<serde_json::Value>(s).is_ok()
}

/// Write a full JSON document to the target file transactionally: back
/// the old contents up, write the new text, verify that it still parses
/// as JSON, and commit, or restore the backup. After any outcome the
/// backup file of this call is gone and, on failure, the target holds
/// its old contents.
pub fn safe_json_write(vol: &mut Volume, path: &str, json_text: &str) -> (r: Result<(), Error>)
    requires
        old(vol).wf(),
    ensures
        final(vol).wf(),
        !old(vol).has(backup_name(path@)) ==> !final(vol).has(backup_name(path@)),
        forall|q: Seq<char>|
            q != path@ && q != backup_name(path@) ==> agrees_on(*old(vol), *final(vol), q),
        r is Ok <==> old(vol).has(path@) && !(old(vol).has(backup_name(path@)) && old(
            vol,
        ).read_only_of(backup_name(path@))) && !old(vol).read_only_of(path@) && json_accepts(
            json_text@,
        ),
        r is Ok ==> final(vol).has(path@) && final(vol).contents_of(path@) == json_text@,
        r is Err ==> agrees_on(*old(vol), *final(vol), path@),
        final(vol).has(path@) == old(vol).has(path@),
{
    let ghost v0 = *vol;
    let ghost bpn = backup_name(path@);
    let bp = backup_path_of(path);
    proof {
        lemma_backup_ne(path@);
    }
    let old_contents = match vol.read(path) {
        Some(cts) => cts,
        None => {
            return Err(
                Error::Custom(String::from_str("Failed to open the configuration file")),
            );
        },
    };
    if let Err(_) = vol.create(bp.as_str(), old_contents.as_str()) {
        return Err(Error::Custom(String::from_str("Failed to create a backup file")));
    }
    let ghost v1 = *vol;
    proof {
        assert(agrees_on(v0, v1, path@));
    }
    if vol.is_read_only(path) {
        let rr = vol.remove(bp.as_str());
        assert(rr is Ok);
        proof {
            assert forall|q: Seq<char>| q != path@ && q != bpn implies agrees_on(v0, *vol, q) by {
                assert(agrees_on(v0, v1, q));
                assert(agrees_on(v1, *vol, q));
            }
            assert(agrees_on(v1, *vol, path@));
        }
        return Err(Error::Custom(String::from_str("Failed to write the configuration file")));
    }
    let cr = vol.create(path, json_text);
    assert(cr is Ok);
    let ghost v2 = *vol;
    proof {
        assert(agrees_on(v1, v2, bpn));
    }
    if json_text_valid(json_text) {
        let rr = vol.remove(bp.as_str());
        assert(rr is Ok);
        proof {
            assert forall|q: Seq<char>| q != path@ && q != bpn implies agrees_on(v0, *vol, q) by {
                assert(agrees_on(v0, v1, q));
                assert(agrees_on(v1, v2, q));
                assert(agrees_on(v2, *vol, q));
            }
            assert(agrees_on(v2, *vol, path@));
            assert(vol.contents_of(path@) == json_text@);
        }
        Ok(())
    } else {
        let restored = vol.create(path, old_contents.as_str());
        assert(restored is Ok);
        let ghost v3 = *vol;
        proof {
            assert(agrees_on(v2, v3, bpn));
        }
        let rr = vol.remove(bp.as_str());
        assert(rr is Ok);
        proof {
            assert forall|q: Seq<char>| q != path@ && q != bpn implies agrees_on(v0, *vol, q) by {
                assert(agrees_on(v0, v1, q));
                assert(agrees_on(v1, v2, q));
                assert(agrees_on(v2, v3, q));
                assert(agrees_on(v3, *vol, q));
            }
            assert(agrees_on(v3, *vol, path@));
            assert(vol.contents_of(path@) == v0.contents_of(path@));
        }
        Err(Error::Io(String::from_str("Failed to write the configuration file")))
    }
}

} // verus!
