//! The symbolic links of a serial device, from its device properties.
use vstd::prelude::*;
use crate::text::{chars_of, split_words, string_of, spec_words};

verus! {

/// A device property: its name and its value, `None` where the value is
/// not valid UTF-8.
#[derive(Clone, Debug)]
pub struct DeviceProperty {
    pub name: String,
    pub value: Option<String>,
}

/// Why a device's links could not be read.
#[derive(Clone, Copy, Debug, PartialEq, Eq, Structural)]
pub enum DeviceError {
    /// No device, or no `DEVLINKS` property.
    NotFound,
    /// The `DEVLINKS` value is not valid UTF-8.
    InvalidValue,
}

/// The name of the property that lists a device's links.
pub open spec fn spec_devlinks_name() -> Seq<char> {
    seq!['D', 'E', 'V', 'L', 'I', 'N', 'K', 'S']
}

/// The links named by the first `DEVLINKS` property: the words of its
/// value.
pub open spec fn spec_device_links(ps: Seq<DeviceProperty>) -> Result<Seq<Seq<char>>, DeviceError>
    decreases ps.len(),
{
    if ps.len() == 0 {
        Err(DeviceError::NotFound)
    } else if ps[0].name@ == spec_devlinks_name() {
        match ps[0].value {
            Some(v) => Ok(spec_words(v@)),
            None => Err(DeviceError::InvalidValue),
        }
    } else {
        spec_device_links(ps.drop_first())
    }
}

/// The links of the device with these properties (none where no device
/// was found).
pub fn get_device_links(properties: &Vec<DeviceProperty>) -> (r: Result<Vec<String>, DeviceError>)
    ensures
        match (r, spec_device_links(properties@)) {
            (Ok(links), Ok(words)) => links@.len() == words.len() && forall|i: int|
                0 <= i < links@.len() ==> (#[trigger] links@[i])@ == words[i],
            (Err(e), Err(f)) => e == f,
            _ => false,
        },
{
    let key = String::from_str("DEVLINKS");
    proof {
        reveal_strlit("DEVLINKS");
    }
    assert(key@ =~= spec_devlinks_name());
    let mut i: usize = 0;
    assert(properties@.skip(0) =~= properties@);
    while i < properties.len()
        invariant
            i <= properties@.len(),
            key@ == spec_devlinks_name(),
            spec_device_links(properties@.skip(i as int)) == spec_device_links(properties@),
        decreases properties@.len() - i,
    {
        let p = &properties[i];
        assert(properties@.skip(i as int)[0] == *p);
        assert(properties@.skip(i as int).drop_first() =~= properties@.skip(i + 1));
        if p.name == key {
            match &p.value {
                None => {
                    return Err(DeviceError::InvalidValue);
                },
                Some(v) => {
                    let words = split_words(&chars_of(v.as_str()));
                    let mut links: Vec<String> = Vec::new();
                    let mut j: usize = 0;
                    while j < words.len()
                        invariant
                            j <= words@.len(),
                            links@.len() == j,
                            forall|k: int| 0 <= k < j ==> (#[trigger] links@[k])@ == words@[k]@,
                        decreases words@.len() - j,
                    {
                        links.push(string_of(&words[j]));
                        j = j + 1;
                    }
                    return Ok(links);
                },
            }
        }
        i = i + 1;
    }
    assert(properties@.skip(i as int).len() == 0);
    Err(DeviceError::NotFound)
}

} // verus!
