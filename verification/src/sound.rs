//! Sound definitions: how a sound entry names its kind, and the engine's state.
use vstd::prelude::*;

use crate::text::same_text;

verus! {

use vstd::string::StringExecFns;

/// Whether a sound entry names a sound file or another sound event.
#[derive(PartialEq, Eq, Structural, Clone, Copy, Debug)]
pub enum SoundType {
    File,
    SoundEvent,
}

/// How a sound's volume falls off with distance.
#[derive(PartialEq, Eq, Structural, Clone, Copy, Debug)]
pub enum Attenuation {
    /// No fall-off.
    NoAttenuation,
    Linear,
}

/// The category a sound plays in.
pub struct SoundSource {}

/// The sound engine, holding the asset index it resolves sounds through.
pub struct SoundEngine<A> {
    pub assets: A,
}

impl<A> SoundEngine<A> {
    /// An engine resolving sounds through the given asset index.
    pub fn new(assets: A) -> (e: Self)
        ensures
            e.assets == assets,
    {
        SoundEngine { assets }
    }
}

/// The name a sound type is written as.
pub open spec fn sound_type_name(t: SoundType) -> Seq<char> {
    match t {
        SoundType::File => "file"@,
        SoundType::SoundEvent => "event"@,
    }
}

/// The sound type a name stands for, if any.
pub open spec fn sound_type_named(name: Seq<char>) -> Option<SoundType> {
    if name == "file"@ {
        Some(SoundType::File)
    } else if name == "event"@ {
        Some(SoundType::SoundEvent)
    } else {
        None
    }
}

impl SoundType {
    /// The sound type a name stands for: `file` or `event`.
    pub fn from_name(name: &str) -> (r: Option<SoundType>)
        ensures
            r == sound_type_named(name@),
    {
        if same_text(name, "file") {
            Some(SoundType::File)
        } else if same_text(name, "event") {
            Some(SoundType::SoundEvent)
        } else {
            None
        }
    }

    /// The name this sound type is written as.
    pub fn as_str(&self) -> (s: &'static str)
        ensures
            s@ == sound_type_name(*self),
    {
        match self {
            SoundType::File => "file",
            SoundType::SoundEvent => "event",
        }
    }
}

/// Reads a sound type from the name found on the wire; an unknown name is
/// handed back as the error.
pub fn sound_type_from_wire(name: String) -> (r: Result<SoundType, String>)
    ensures
        sound_type_named(name@) matches Some(t) ==> r == Ok::<SoundType, String>(t),
        sound_type_named(name@) is None ==> r == Err::<SoundType, String>(name),
{
    match SoundType::from_name(name.as_str()) {
        Some(t) => Ok(t),
        None => Err(name),
    }
}

/// The name written on the wire for a sound type.
pub fn sound_type_to_wire(t: SoundType) -> (s: String)
    ensures
        s@ == sound_type_name(t),
{
    String::from_str(t.as_str())
}

/// The sum of some sound weights.
pub open spec fn weight_sum(weights: Seq<i32>) -> int
    decreases weights.len(),
{
    if weights.len() == 0 {
        0
    } else {
        weight_sum(weights.drop_last()) + weights.last()
    }
}

/// Every running total of the weights, first to last, fits in an `i32`.
pub open spec fn sums_fit(weights: Seq<i32>) -> bool {
    forall|k: int| 0 <= k <= weights.len() ==> i32::MIN <= #[trigger] weight_sum(weights.take(k)) <= i32::MAX
}

/// The total weight of the sounds of an event, from their weights in order;
/// every running total must fit in an `i32`.
pub fn total_weight(weights: &Vec<i32>) -> (r: i32)
    requires
        sums_fit(weights@),
    ensures
        r == weight_sum(weights@),
{
    let mut sum: i32 = 0;
    let mut i: usize = 0;
    while i < weights.len()
        invariant
            i <= weights@.len(),
            sums_fit(weights@),
            sum == weight_sum(weights@.take(i as int)),
        decreases weights.len() - i,
    {
        assert(weights@.take(i + 1).drop_last() =~= weights@.take(i as int));
        assert(weights@.take(i + 1).last() == weights@[i as int]);
        assert(i32::MIN <= weight_sum(weights@.take(i + 1)) <= i32::MAX);
        sum = sum + weights[i];
        i = i + 1;
    }
    assert(weights@.take(weights@.len() as int) =~= weights@);
    sum
}

/// Every sound type reads back from its own name, and the two names differ.
pub proof fn law_sound_type_name_roundtrip(t: SoundType)
    ensures
        sound_type_named(sound_type_name(t)) == Some(t),
        sound_type_name(SoundType::File) != sound_type_name(SoundType::SoundEvent),
{
    reveal_strlit("file");
    reveal_strlit("event");
    assert("file"@[0] != "event"@[0]);
}

} // verus!
