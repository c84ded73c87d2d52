//! The modules that are known, and how the one at hand is told by its model name.

use vstd::prelude::*;

use crate::text::{ascii_upper, contains, mentions, texts, trim, trimmed};

verus! {

/// What `str::to_uppercase` returns.
pub uninterp spec fn uppercase(s: Seq<char>) -> Seq<char>;

/// Every character is ASCII.
pub open spec fn all_ascii(s: Seq<char>) -> bool {
    forall|i: int| 0 <= i < s.len() ==> #[trigger] s[i] <= '\u{7f}'
}

/// ASCII text with the letters `a` to `z` replaced by `A` to `Z`.
pub open spec fn ascii_uppercase(s: Seq<char>) -> Seq<char> {
    Seq::new(s.len(), |i: int| ascii_upper(s[i]))
}

/// `str::to_uppercase`: the upper-case form of a text by the rules of Unicode. Of ASCII text the
/// contract says what it is; of other text only that it depends on the text alone.
#[verifier::external_body]
fn to_uppercase(s: &str) -> (r: String)
    ensures
        r@ == uppercase(s@),
        all_ascii(s@) ==> r@ == ascii_uppercase(s@),
{
    s.to_uppercase()
}

/// A family of modules.
#[derive(Debug, Clone, Copy, PartialEq, Eq, Structural)]
pub enum DeviceId {
    Rm520n,
    Rm502q,
    Generic,
}

/// What is particular to a family of modules.
#[derive(Debug, Clone)]
pub struct DeviceProfile {
    pub id: DeviceId,
    pub name: &'static str,
    /// Parts of the model names by which the family is told.
    pub cgmm_prefixes: Vec<&'static str>,
    pub default_nr_bands: &'static str,
    pub default_lte_bands: &'static str,
    /// The highest band with a subcarrier spacing of 15 kHz.
    pub nr_cell_lock_scs_threshold: u32,
    pub has_eth_driver: bool,
}

/// The upper-case model name holds one of the names.
pub open spec fn names_model(names: Seq<Seq<char>>, model: Seq<char>) -> bool {
    exists|i: int| 0 <= i < names.len() && mentions(model, #[trigger] names[i])
}

/// Each of the names in upper case.
pub open spec fn uppercase_all(names: Seq<Seq<char>>) -> Seq<Seq<char>> {
    Seq::new(names.len(), |i: int| uppercase(names[i]))
}

/// Each of the names is ASCII text in upper case already.
pub open spec fn all_plain(names: Seq<Seq<char>>) -> bool {
    forall|i: int|
        0 <= i < names.len() ==> all_ascii(#[trigger] names[i]) && ascii_uppercase(names[i])
            == names[i]
}

impl DeviceProfile {
    /// Whether the model name belongs to this family: whether it holds one of its names, in
    /// either case.
    pub fn matches(&self, cgmm_response: &str) -> (r: bool)
        ensures
            r == names_model(
                uppercase_all(texts(self.cgmm_prefixes@)),
                uppercase(trimmed(cgmm_response@)),
            ),
    {
        self.matches_model(&to_uppercase(trim(cgmm_response)))
    }

    /// Whether an upper-case model name belongs to this family.
    pub fn matches_model(&self, model: &str) -> (r: bool)
        ensures
            r == names_model(uppercase_all(texts(self.cgmm_prefixes@)), model@),
            all_plain(texts(self.cgmm_prefixes@)) ==> r == names_model(
                texts(self.cgmm_prefixes@),
                model@,
            ),
    {
        let ghost names = texts(self.cgmm_prefixes@);
        let ghost upper = uppercase_all(names);
        let mut i: usize = 0;
        while i < self.cgmm_prefixes.len()
            invariant
                i <= self.cgmm_prefixes@.len() == names.len(),
                names == texts(self.cgmm_prefixes@),
                upper == uppercase_all(names),
                forall|j: int| 0 <= j < i ==> !mentions(model@, #[trigger] upper[j]),
                all_plain(names) ==> forall|j: int|
                    0 <= j < i ==> #[trigger] upper[j] == names[j],
            decreases self.cgmm_prefixes@.len() - i,
        {
            let name = self.cgmm_prefixes[i];
            assert(names[i as int] == name@);
            if contains(model, &to_uppercase(name)) {
                assert(mentions(model@, upper[i as int]));
                return true;
            }
            i += 1;
        }
        proof {
            if all_plain(names) {
                assert(upper == names);
            }
        }
        false
    }
}

/// The family that a profile describes, with all that is particular to it.
pub open spec fn is_profile(p: DeviceProfile, id: DeviceId) -> bool {
    &&& p.id == id
    &&& p.nr_cell_lock_scs_threshold == 28
    &&& match id {
        DeviceId::Rm520n => {
            &&& p.name@ == "RM520N / RG520N Series"@
            &&& texts(p.cgmm_prefixes@) == rm520n_names()
            &&& p.default_nr_bands@
                == "1:2:3:5:7:8:12:13:14:18:20:25:26:28:29:30:38:40:41:48:66:70:71:75:76:77:78:79"@
            &&& p.default_lte_bands@
                == "1:2:3:4:5:7:8:12:13:14:17:18:19:20:25:26:28:29:30:32:34:38:39:40:41:42:43:48:66:71"@
            &&& p.has_eth_driver
        },
        DeviceId::Rm502q => {
            &&& p.name@ == "RM502Q-AE"@
            &&& texts(p.cgmm_prefixes@) == rm502q_names()
            &&& p.default_nr_bands@ == "1:2:3:5:7:8:12:20:28:38:40:41:48:66:71:77:78:79"@
            &&& p.default_lte_bands@
                == "1:2:3:4:5:7:8:12:13:14:17:18:19:20:25:26:28:29:30:32:34:38:39:40:41:42:43:46:48:66:71"@
            &&& !p.has_eth_driver
        },
        DeviceId::Generic => {
            &&& p.name@ == "Generic Quectel Module"@
            &&& texts(p.cgmm_prefixes@) == Seq::<Seq<char>>::empty()
            &&& p.default_nr_bands@ == "1:3:8:28:41:77:78:79"@
            &&& p.default_lte_bands@ == "1:3:5:8:34:38:39:40:41"@
            &&& !p.has_eth_driver
        },
    }
}

/// The model names of the RM520N and RG520N.
pub open spec fn rm520n_names() -> Seq<Seq<char>> {
    seq!["RM520N"@, "RG520N"@]
}

/// The model names of the RM502Q.
pub open spec fn rm502q_names() -> Seq<Seq<char>> {
    seq!["RM502Q"@]
}

/// The RM520N and RG520N, on Qualcomm SDX62 and 3GPP release 16.
pub fn profile_rm520n() -> (r: DeviceProfile)
    ensures
        is_profile(r, DeviceId::Rm520n),
{
    let mut cgmm_prefixes: Vec<&'static str> = Vec::new();
    cgmm_prefixes.push("RM520N");
    cgmm_prefixes.push("RG520N");
    assert(texts(cgmm_prefixes@) == rm520n_names());
    DeviceProfile {
        id: DeviceId::Rm520n,
        name: "RM520N / RG520N Series",
        cgmm_prefixes,
        default_nr_bands: "1:2:3:5:7:8:12:13:14:18:20:25:26:28:29:30:38:40:41:48:66:70:71:75:76:77:78:79",
        default_lte_bands: "1:2:3:4:5:7:8:12:13:14:17:18:19:20:25:26:28:29:30:32:34:38:39:40:41:42:43:48:66:71",
        nr_cell_lock_scs_threshold: 28,
        has_eth_driver: true,
    }
}

/// The RM502Q-AE, on Qualcomm SDX55 and 3GPP release 15.
pub fn profile_rm502q() -> (r: DeviceProfile)
    ensures
        is_profile(r, DeviceId::Rm502q),
{
    let mut cgmm_prefixes: Vec<&'static str> = Vec::new();
    cgmm_prefixes.push("RM502Q");
    assert(texts(cgmm_prefixes@) == rm502q_names());
    DeviceProfile {
        id: DeviceId::Rm502q,
        name: "RM502Q-AE",
        cgmm_prefixes,
        default_nr_bands: "1:2:3:5:7:8:12:20:28:38:40:41:48:66:71:77:78:79",
        default_lte_bands: "1:2:3:4:5:7:8:12:13:14:17:18:19:20:25:26:28:29:30:32:34:38:39:40:41:42:43:46:48:66:71",
        nr_cell_lock_scs_threshold: 28,
        has_eth_driver: false,
    }
}

/// A module that is none of the known ones.
pub fn profile_generic() -> (r: DeviceProfile)
    ensures
        is_profile(r, DeviceId::Generic),
{
    let cgmm_prefixes: Vec<&'static str> = Vec::new();
    assert(texts(cgmm_prefixes@) == Seq::<Seq<char>>::empty());
    DeviceProfile {
        id: DeviceId::Generic,
        name: "Generic Quectel Module",
        cgmm_prefixes,
        default_nr_bands: "1:3:8:28:41:77:78:79",
        default_lte_bands: "1:3:5:8:34:38:39:40:41",
        nr_cell_lock_scs_threshold: 28,
        has_eth_driver: false,
    }
}

/// The known profiles, in the order in which they are tried.
pub fn all_profiles() -> (r: Vec<DeviceProfile>)
    ensures
        r@.len() == 2,
        is_profile(r@[0], DeviceId::Rm520n),
        is_profile(r@[1], DeviceId::Rm502q),
{
    let mut r: Vec<DeviceProfile> = Vec::new();
    r.push(profile_rm520n());
    r.push(profile_rm502q());
    r
}

/// The family to which an upper-case model name belongs.
pub open spec fn family_of(model: Seq<char>) -> DeviceId {
    if names_model(rm520n_names(), model) {
        DeviceId::Rm520n
    } else if names_model(rm502q_names(), model) {
        DeviceId::Rm502q
    } else {
        DeviceId::Generic
    }
}

proof fn lemma_names_are_plain()
    ensures
        all_plain(rm520n_names()),
        all_plain(rm502q_names()),
{
    reveal_strlit("RM520N");
    reveal_strlit("RG520N");
    reveal_strlit("RM502Q");
    assert(ascii_uppercase("RM520N"@) == "RM520N"@);
    assert(ascii_uppercase("RG520N"@) == "RG520N"@);
    assert(ascii_uppercase("RM502Q"@) == "RM502Q"@);
}

/// The profile for an upper-case model name; the generic one where no family has this name.
pub fn profile_for(model: &str) -> (r: DeviceProfile)
    ensures
        is_profile(r, family_of(model@)),
{
    proof {
        lemma_names_are_plain();
    }
    let first = profile_rm520n();
    if first.matches_model(model) {
        return first;
    }
    let second = profile_rm502q();
    if second.matches_model(model) {
        return second;
    }
    profile_generic()
}

/// The profile for the answer to `AT+CGMM`.
pub fn lookup_profile(cgmm_response: &str) -> (r: DeviceProfile)
    ensures
        is_profile(r, family_of(uppercase(trimmed(cgmm_response@)))),
        all_ascii(trimmed(cgmm_response@)) ==> is_profile(
            r,
            family_of(ascii_uppercase(trimmed(cgmm_response@))),
        ),
{
    profile_for(&to_uppercase(trim(cgmm_response)))
}

} // verus!
