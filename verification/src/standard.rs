//! Standard-metadata lookup types: the module table entries compiled from
//! the published standard, the tag-type codes of attributes, and the
//! consistency rule a stack of objects must satisfy before assembly. The
//! loading of the compiled tables from their serialized form lives outside
//! the library; only plain values enter here.
use vstd::prelude::*;

verus! {

/// One module row of a composite IOD: its id, its usage code ("M"
/// mandatory, "U" user-optional, "C" conditional), the condition text when
/// there is one, and the information entity it belongs to.
#[derive(Debug, Clone, PartialEq, Eq)]
pub struct Module {
    pub module_id: String,
    pub usage: String,
    pub conditional: Option<String>,
    pub ie: String,
}

impl Module {
    /// Whether this module must be present. A mandatory module ("M") is
    /// required; a user-optional one is not. A conditional module (usage
    /// "C" with a condition attached) is unsupported: its evaluation
    /// semantics are deliberately left undefined, so the precondition
    /// excludes it rather than guessing.
    pub fn is_required(&self) -> (r: bool)
        requires
            !(self.usage@ == "C"@ && self.conditional is Some),
        ensures
            r == (self.usage@ == "M"@),
    {
        self.usage == "M".to_owned()
    }
}

/// The table mapping each composite IOD to its module rows.
#[derive(Debug, Clone, PartialEq, Eq)]
pub struct Modules(pub Vec<(String, Vec<Module>)>);

/// The requirement code of an attribute within a module.
#[derive(Debug, Clone, Copy, PartialEq, Eq, Structural)]
pub enum TagType {
    Type1,
    Type1C,
    Type2,
    Type2C,
    Type3,
    Unknown,
}

/// The tag type a requirement-code string stands for; anything unknown maps
/// to `Unknown`.
pub open spec fn spec_tag_type_of(s: Seq<char>) -> TagType {
    if s == "1"@ {
        TagType::Type1
    } else if s == "1C"@ {
        TagType::Type1C
    } else if s == "2"@ {
        TagType::Type2
    } else if s == "2C"@ {
        TagType::Type2C
    } else if s == "3"@ {
        TagType::Type3
    } else {
        TagType::Unknown
    }
}

/// Reads a requirement code: "1", "1C", "2", "2C" or "3"; anything else is
/// `Unknown`.
pub fn tag_type_from_str(s: &str) -> (r: TagType)
    ensures
        r == spec_tag_type_of(s@),
{
    let owned = s.to_owned();
    if owned == "1".to_owned() {
        TagType::Type1
    } else if owned == "1C".to_owned() {
        TagType::Type1C
    } else if owned == "2".to_owned() {
        TagType::Type2
    } else if owned == "2C".to_owned() {
        TagType::Type2C
    } else if owned == "3".to_owned() {
        TagType::Type3
    } else {
        TagType::Unknown
    }
}

/// The deep view of a list of strings.
pub open spec fn strings_deep(l: Seq<String>) -> Seq<Seq<char>> {
    Seq::new(l.len(), |i: int| l[i]@)
}

/// The distinct values of a list, each at its first occurrence, in order.
pub open spec fn spec_distinct(s: Seq<Seq<char>>) -> Seq<Seq<char>>
    decreases s.len(),
{
    if s.len() == 0 {
        Seq::empty()
    } else {
        let rest = spec_distinct(s.drop_last());
        if rest.contains(s.last()) {
            rest
        } else {
            rest.push(s.last())
        }
    }
}

/// Checks that every object of a prospective stack carries the same value
/// for one identifying attribute. `Ok` exactly when there is at least one
/// value and no two differ; otherwise the distinct values seen, each at its
/// first occurrence, in order, for the error report.
pub fn check_consistent(values: &Vec<String>) -> (r: Result<(), Vec<String>>)
    ensures
        r is Ok <==> values@.len() >= 1 && spec_distinct(strings_deep(values@)).len() == 1,
        r matches Err(d) ==> strings_deep(d@) == spec_distinct(strings_deep(values@)),
{
    let distinct = distinct_values(values);
    if values.len() >= 1 && distinct.len() == 1 {
        Ok(())
    } else {
        Err(distinct)
    }
}

/// The distinct values of a list, each at its first occurrence, in order.
pub fn distinct_values(values: &Vec<String>) -> (r: Vec<String>)
    ensures
        strings_deep(r@) == spec_distinct(strings_deep(values@)),
{
    let mut out: Vec<String> = Vec::new();
    let mut i: usize = 0;
    proof {
        assert(strings_deep(values@).take(0) =~= Seq::<Seq<char>>::empty());
        assert(strings_deep(out@) =~= spec_distinct(strings_deep(values@).take(0)));
    }
    while i < values.len()
        invariant
            i <= values@.len(),
            strings_deep(out@) == spec_distinct(strings_deep(values@).take(i as int)),
        decreases values@.len() - i,
    {
        let ghost pre: Seq<Seq<char>> = strings_deep(out@);
        let mut found = false;
        let mut j: usize = 0;
        while j < out.len()
            invariant
                j <= out@.len(),
                pre == strings_deep(out@),
                found ==> pre.contains(values@[i as int]@),
                !found ==> forall|k: int| 0 <= k < j ==> pre[k] != values@[i as int]@,
                i < values@.len(),
            decreases out@.len() - j,
        {
            if out[j] == values[i] {
                proof {
                    assert(pre[j as int] == values@[i as int]@);
                }
                found = true;
            }
            j = j + 1;
        }
        proof {
            if !found {
                assert(!pre.contains(values@[i as int]@)) by {
                    if pre.contains(values@[i as int]@) {
                        let k = choose|k: int|
                            0 <= k < pre.len() && pre[k] == values@[i as int]@;
                        assert(pre[k] != values@[i as int]@);
                    }
                };
            }
            let t = strings_deep(values@).take(i + 1);
            assert(t.drop_last() =~= strings_deep(values@).take(i as int));
            assert(t.last() == values@[i as int]@);
        }
        if !found {
            out.push(values[i].clone());
            proof {
                assert(strings_deep(out@) =~= pre.push(values@[i as int]@));
            }
        }
        i = i + 1;
    }
    proof {
        assert(strings_deep(values@).take(values@.len() as int) =~= strings_deep(values@));
    }
    out
}

} // verus!
