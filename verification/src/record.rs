use crate::utils::{Role, Status};
use vstd::prelude::*;

verus! {

/// Mathematical model of one [`SysManAccount`]: the same fields with every
/// container replaced by its abstract value.
#[verifier::ext_equal]
pub struct RecordView {
    pub role: Role,
    pub status: Status,
    pub level: Option<u8>,
    pub parent: Option<u64>,
    pub children: Option<Seq<u64>>,
    pub metadata: Seq<u8>,
}

/// One privileged identity's record: a system manager or an organization.
///
/// `level` and `parent` are present only on non-root system managers;
/// `metadata` is an opaque byte string expected, but not guaranteed, to hold
/// a JSON object.
#[derive(Clone, Debug)]
pub struct SysManAccount {
    pub role: Role,
    pub status: Status,
    pub level: Option<u8>,
    pub parent: Option<u64>,
    pub children: Option<Vec<u64>>,
    pub metadata: Vec<u8>,
}

impl View for SysManAccount {
    type V = RecordView;

    open spec fn view(&self) -> RecordView {
        RecordView {
            role: self.role,
            status: self.status,
            level: self.level,
            parent: self.parent,
            children: match self.children {
                Some(c) => Some(c@),
                None => None,
            },
            metadata: self.metadata@,
        }
    }
}

impl vstd::std_specs::cmp::PartialEqSpecImpl for SysManAccount {
    open spec fn obeys_eq_spec() -> bool {
        true
    }

    open spec fn eq_spec(&self, other: &Self) -> bool {
        self@ == other@
    }
}

impl PartialEq for SysManAccount {
    fn eq(&self, other: &Self) -> (r: bool) {
        let children_eq = match (&self.children, &other.children) {
            (Some(a), Some(b)) => {
                let e = a == b;
                proof {
                    if e {
                        assert(a@ =~= b@);
                    } else {
                        assert(a@ != b@) by {
                            if a@ == b@ {
                                assert(forall|i: int| 0 <= i < a@.len() ==> a@[i] == b@[i]);
                            }
                        }
                    }
                }
                e
            },
            (None, None) => true,
            _ => false,
        };
        let metadata_eq = self.metadata == other.metadata;
        proof {
            if metadata_eq {
                assert(self.metadata@ =~= other.metadata@);
            } else {
                if self.metadata@ == other.metadata@ {
                    assert(forall|i: int| 0 <= i < self.metadata@.len()
                        ==> self.metadata@[i] == other.metadata@[i]);
                }
            }
        }
        let r = self.role == other.role && self.status == other.status
            && self.level == other.level && self.parent == other.parent
            && children_eq && metadata_eq;
        proof {
            if r {
                assert(self@ =~= other@);
            }
        }
        r
    }
}

/// Copies a byte string; the registry copies metadata this way so that the
/// copy's abstract value provably matches the source record's.
pub fn clone_bytes(v: &Vec<u8>) -> (r: Vec<u8>)
    ensures
        r@ == v@,
{
    let mut r: Vec<u8> = Vec::new();
    let mut i: usize = 0;
    while i < v.len()
        invariant
            i <= v.len(),
            r@ == v@.take(i as int),
        decreases v.len() - i,
    {
        r.push(v[i]);
        proof {
            assert(r@ =~= v@.take(i + 1));
        }
        i += 1;
    }
    proof {
        assert(v@.take(v@.len() as int) =~= v@);
    }
    r
}

/// Copies a sequence of identity references.
pub fn clone_ids(v: &Vec<u64>) -> (r: Vec<u64>)
    ensures
        r@ == v@,
{
    let mut r: Vec<u64> = Vec::new();
    let mut i: usize = 0;
    while i < v.len()
        invariant
            i <= v.len(),
            r@ == v@.take(i as int),
        decreases v.len() - i,
    {
        r.push(v[i]);
        proof {
            assert(r@ =~= v@.take(i + 1));
        }
        i += 1;
    }
    proof {
        assert(v@.take(v@.len() as int) =~= v@);
    }
    r
}

/// Copies a record field by field, so that the copy provably denotes the
/// same abstract record.
pub fn clone_record(rec: &SysManAccount) -> (r: SysManAccount)
    ensures
        r@ == rec@,
{
    let children = match &rec.children {
        Some(c) => Some(clone_ids(c)),
        None => None,
    };
    let r = SysManAccount {
        role: rec.role,
        status: rec.status,
        level: rec.level,
        parent: rec.parent,
        children,
        metadata: clone_bytes(&rec.metadata),
    };
    proof {
        assert(r@ =~= rec@);
    }
    r
}

} // verus!
