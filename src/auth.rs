use vstd::prelude::*;

verus! {

/// The verdict of the shared-secret gate.
#[derive(Debug, Clone, Copy, PartialEq, Eq, Structural)]
pub enum AuthOutcome {
    Authorized,
    Unauthorized,
}

/// A caller is authorized exactly when it presents a credential equal to the secret.
pub open spec fn authorized(secret: Seq<u8>, credential: Option<Seq<u8>>) -> bool {
    match credential {
        Some(c) => c == secret,
        None => false,
    }
}

pub open spec fn credential_view(credential: Option<&[u8]>) -> Option<Seq<u8>> {
    match credential {
        Some(c) => Some(c@),
        None => None,
    }
}

/// Compares two byte strings of equal length without stopping at the first difference.
fn same_bytes(a: &[u8], b: &[u8]) -> (r: bool)
    ensures
        r == (a@ == b@),
{
    if a.len() != b.len() {
        return false;
    }
    let mut same = true;
    let mut i: usize = 0;
    while i < a.len()
        invariant
            a@.len() == b@.len(),
            i <= a@.len(),
            same == (forall|j: int| 0 <= j < i ==> a@[j] == b@[j]),
        decreases a@.len() - i,
    {
        if a[i] != b[i] {
            same = false;
        }
        i = i + 1;
    }
    if same {
        assert(a@ =~= b@);
    }
    same
}

/// Checks a request's credential against the configured secret.
pub fn check(secret: &[u8], credential: Option<&[u8]>) -> (r: AuthOutcome)
    ensures
        (r == AuthOutcome::Authorized) == authorized(secret@, credential_view(credential)),
{
    match credential {
        Some(c) => {
            if same_bytes(c, secret) {
                AuthOutcome::Authorized
            } else {
                AuthOutcome::Unauthorized
            }
        },
        None => AuthOutcome::Unauthorized,
    }
}

} // verus!
