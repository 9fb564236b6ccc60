//! The filter types of the effects chain: which names the schema may use, and
//! which of them run through the biquad and which through the formant bank or
//! the comb.

use vstd::prelude::*;
use crate::text::str_eq;

verus! {

/// The responses of the biquad, named as the Web Audio `BiquadFilterNode`
/// names them.
#[derive(Clone, Copy, PartialEq, Eq, Debug, Default, Structural)]
pub enum BiquadType {
    #[default]
    Lowpass,
    Highpass,
    Bandpass,
    Notch,
    Peaking,
    Lowshelf,
    Highshelf,
    Allpass,
}

/// The biquad type a name denotes, if it denotes one.
pub open spec fn biquad_type_of(s: Seq<char>) -> Option<BiquadType> {
    if s == "lowpass"@ {
        Some(BiquadType::Lowpass)
    } else if s == "highpass"@ {
        Some(BiquadType::Highpass)
    } else if s == "bandpass"@ {
        Some(BiquadType::Bandpass)
    } else if s == "notch"@ {
        Some(BiquadType::Notch)
    } else if s == "peaking"@ {
        Some(BiquadType::Peaking)
    } else if s == "lowshelf"@ {
        Some(BiquadType::Lowshelf)
    } else if s == "highshelf"@ {
        Some(BiquadType::Highshelf)
    } else if s == "allpass"@ {
        Some(BiquadType::Allpass)
    } else {
        None
    }
}

impl BiquadType {
    /// The type a name denotes; `None` for any other text.
    pub fn parse(s: &str) -> (r: Option<BiquadType>)
        ensures
            r == biquad_type_of(s@),
    {
        if str_eq(s, "lowpass") {
            Some(BiquadType::Lowpass)
        } else if str_eq(s, "highpass") {
            Some(BiquadType::Highpass)
        } else if str_eq(s, "bandpass") {
            Some(BiquadType::Bandpass)
        } else if str_eq(s, "notch") {
            Some(BiquadType::Notch)
        } else if str_eq(s, "peaking") {
            Some(BiquadType::Peaking)
        } else if str_eq(s, "lowshelf") {
            Some(BiquadType::Lowshelf)
        } else if str_eq(s, "highshelf") {
            Some(BiquadType::Highshelf)
        } else if str_eq(s, "allpass") {
            Some(BiquadType::Allpass)
        } else {
            None
        }
    }
}

/// Which engine a filter type runs through.
#[derive(Clone, Copy, PartialEq, Eq, Debug, Structural)]
pub enum FilterMode {
    Biquad,
    Formant,
    Comb,
}

/// `formant` and `comb` have engines of their own; every other name is
/// handed to the biquad.
pub open spec fn filter_mode_of(s: Seq<char>) -> FilterMode {
    if s == "formant"@ {
        FilterMode::Formant
    } else if s == "comb"@ {
        FilterMode::Comb
    } else {
        FilterMode::Biquad
    }
}

pub fn filter_mode(t: &str) -> (r: FilterMode)
    ensures
        r == filter_mode_of(t@),
{
    if str_eq(t, "formant") {
        FilterMode::Formant
    } else if str_eq(t, "comb") {
        FilterMode::Comb
    } else {
        FilterMode::Biquad
    }
}

/// A filter type is implemented when its engine is the formant bank or the
/// comb, or when the biquad knows its name.
pub open spec fn filter_type_implemented(s: Seq<char>) -> bool {
    match filter_mode_of(s) {
        FilterMode::Biquad => biquad_type_of(s) is Some,
        _ => true,
    }
}

/// Whether every filter type of the schema's list maps to an engine that
/// implements it.
pub fn filter_types_covered(types: &Vec<String>) -> (r: bool)
    ensures
        r == (forall|i: int| 0 <= i < types@.len() ==> filter_type_implemented(#[trigger] types@[i]@)),
{
    let mut i: usize = 0;
    while i < types.len()
        invariant
            i <= types@.len(),
            forall|j: int| 0 <= j < i ==> filter_type_implemented(#[trigger] types@[j]@),
        decreases types@.len() - i,
    {
        let t = types[i].as_str();
        let ok = match filter_mode(t) {
            FilterMode::Biquad => BiquadType::parse(t).is_some(),
            _ => true,
        };
        if !ok {
            return false;
        }
        i = i + 1;
    }
    true
}


/// A numeric parameter of the effects chain, as the modulation matrix and
/// the genome address it.
#[derive(Clone, Copy, PartialEq, Eq, Debug, Structural)]
pub enum FxParam {
    FilterFreq,
    FilterQ,
    FilterGain,
    FilterVowel,
    FilterCombFb,
    ChorusRate,
    ChorusDepth,
    ChorusMix,
    ChorusFb,
    ReverbMix,
    ReverbDecay,
    DelayTime,
    DelayFb,
    DelayMix,
    PhaserRate,
    PhaserDepth,
    PhaserFb,
    PhaserMix,
    PhaserStages,
    LimiterThr,
    LimiterRel,
}

/// The parameter a key names, if it names one.
pub open spec fn fx_param_from(s: Seq<char>) -> Option<FxParam> {
    if s == "filterFreq"@ {
        Some(FxParam::FilterFreq)
    } else if s == "filterQ"@ {
        Some(FxParam::FilterQ)
    } else if s == "filterGain"@ {
        Some(FxParam::FilterGain)
    } else if s == "filterVowel"@ {
        Some(FxParam::FilterVowel)
    } else if s == "filterCombFb"@ {
        Some(FxParam::FilterCombFb)
    } else if s == "chorusRate"@ {
        Some(FxParam::ChorusRate)
    } else if s == "chorusDepth"@ {
        Some(FxParam::ChorusDepth)
    } else if s == "chorusMix"@ {
        Some(FxParam::ChorusMix)
    } else if s == "chorusFb"@ {
        Some(FxParam::ChorusFb)
    } else if s == "reverbMix"@ {
        Some(FxParam::ReverbMix)
    } else if s == "reverbDecay"@ {
        Some(FxParam::ReverbDecay)
    } else if s == "delayTime"@ {
        Some(FxParam::DelayTime)
    } else if s == "delayFb"@ {
        Some(FxParam::DelayFb)
    } else if s == "delayMix"@ {
        Some(FxParam::DelayMix)
    } else if s == "phaserRate"@ {
        Some(FxParam::PhaserRate)
    } else if s == "phaserDepth"@ {
        Some(FxParam::PhaserDepth)
    } else if s == "phaserFb"@ {
        Some(FxParam::PhaserFb)
    } else if s == "phaserMix"@ {
        Some(FxParam::PhaserMix)
    } else if s == "phaserStages"@ {
        Some(FxParam::PhaserStages)
    } else if s == "limiterThr"@ {
        Some(FxParam::LimiterThr)
    } else if s == "limiterRel"@ {
        Some(FxParam::LimiterRel)
    } else {
        None
    }
}

/// The parameter `key` names: what `get` reads and `set` writes.
pub fn fx_param_of(key: &str) -> (r: Option<FxParam>)
    ensures
        r == fx_param_from(key@),
{
    if str_eq(key, "filterFreq") {
        Some(FxParam::FilterFreq)
    } else if str_eq(key, "filterQ") {
        Some(FxParam::FilterQ)
    } else if str_eq(key, "filterGain") {
        Some(FxParam::FilterGain)
    } else if str_eq(key, "filterVowel") {
        Some(FxParam::FilterVowel)
    } else if str_eq(key, "filterCombFb") {
        Some(FxParam::FilterCombFb)
    } else if str_eq(key, "chorusRate") {
        Some(FxParam::ChorusRate)
    } else if str_eq(key, "chorusDepth") {
        Some(FxParam::ChorusDepth)
    } else if str_eq(key, "chorusMix") {
        Some(FxParam::ChorusMix)
    } else if str_eq(key, "chorusFb") {
        Some(FxParam::ChorusFb)
    } else if str_eq(key, "reverbMix") {
        Some(FxParam::ReverbMix)
    } else if str_eq(key, "reverbDecay") {
        Some(FxParam::ReverbDecay)
    } else if str_eq(key, "delayTime") {
        Some(FxParam::DelayTime)
    } else if str_eq(key, "delayFb") {
        Some(FxParam::DelayFb)
    } else if str_eq(key, "delayMix") {
        Some(FxParam::DelayMix)
    } else if str_eq(key, "phaserRate") {
        Some(FxParam::PhaserRate)
    } else if str_eq(key, "phaserDepth") {
        Some(FxParam::PhaserDepth)
    } else if str_eq(key, "phaserFb") {
        Some(FxParam::PhaserFb)
    } else if str_eq(key, "phaserMix") {
        Some(FxParam::PhaserMix)
    } else if str_eq(key, "phaserStages") {
        Some(FxParam::PhaserStages)
    } else if str_eq(key, "limiterThr") {
        Some(FxParam::LimiterThr)
    } else if str_eq(key, "limiterRel") {
        Some(FxParam::LimiterRel)
    } else {
        None
    }
}

/// A module of the effects chain that has an on/off switch.
#[derive(Clone, Copy, PartialEq, Eq, Debug, Structural)]
pub enum FxModule {
    Filter,
    Chorus,
    Reverb,
    Limiter,
    Delay,
    Phaser,
}

/// The module a switch key names, if it names one.
pub open spec fn fx_module_from(s: Seq<char>) -> Option<FxModule> {
    if s == "filterOn"@ {
        Some(FxModule::Filter)
    } else if s == "chorusOn"@ {
        Some(FxModule::Chorus)
    } else if s == "reverbOn"@ {
        Some(FxModule::Reverb)
    } else if s == "limiterOn"@ {
        Some(FxModule::Limiter)
    } else if s == "delayOn"@ {
        Some(FxModule::Delay)
    } else if s == "phaserOn"@ {
        Some(FxModule::Phaser)
    } else {
        None
    }
}

/// The module switch key `on_key` names.
pub fn fx_module_of(on_key: &str) -> (r: Option<FxModule>)
    ensures
        r == fx_module_from(on_key@),
{
    if str_eq(on_key, "filterOn") {
        Some(FxModule::Filter)
    } else if str_eq(on_key, "chorusOn") {
        Some(FxModule::Chorus)
    } else if str_eq(on_key, "reverbOn") {
        Some(FxModule::Reverb)
    } else if str_eq(on_key, "limiterOn") {
        Some(FxModule::Limiter)
    } else if str_eq(on_key, "delayOn") {
        Some(FxModule::Delay)
    } else if str_eq(on_key, "phaserOn") {
        Some(FxModule::Phaser)
    } else {
        None
    }
}

/// The on/off switches of the effects chain.
#[derive(Clone, Copy, PartialEq, Eq, Debug, Default, Structural)]
pub struct FxSwitches {
    pub filter_on: bool,
    pub chorus_on: bool,
    pub reverb_on: bool,
    pub limiter_on: bool,
    pub delay_on: bool,
    pub phaser_on: bool,
}

impl FxSwitches {
    /// The switch of one module.
    pub open spec fn switch_of(self, m: FxModule) -> bool {
        match m {
            FxModule::Filter => self.filter_on,
            FxModule::Chorus => self.chorus_on,
            FxModule::Reverb => self.reverb_on,
            FxModule::Limiter => self.limiter_on,
            FxModule::Delay => self.delay_on,
            FxModule::Phaser => self.phaser_on,
        }
    }

    /// These switches with module `m` set to `on`.
    pub open spec fn with_switch(self, m: FxModule, on: bool) -> FxSwitches {
        match m {
            FxModule::Filter => FxSwitches { filter_on: on, ..self },
            FxModule::Chorus => FxSwitches { chorus_on: on, ..self },
            FxModule::Reverb => FxSwitches { reverb_on: on, ..self },
            FxModule::Limiter => FxSwitches { limiter_on: on, ..self },
            FxModule::Delay => FxSwitches { delay_on: on, ..self },
            FxModule::Phaser => FxSwitches { phaser_on: on, ..self },
        }
    }

    /// What `module_on` answers for a key.
    pub open spec fn module_on_spec(self, on_key: Seq<char>) -> bool {
        match fx_module_from(on_key) {
            Some(m) => self.switch_of(m),
            None => false,
        }
    }

    /// What `set_switch` makes of the switches.
    pub open spec fn set_switch_spec(self, on_key: Seq<char>, on: bool) -> FxSwitches {
        match fx_module_from(on_key) {
            Some(m) => self.with_switch(m, on),
            None => self,
        }
    }

    /// Whether the module that `on_key` switches is on; false for a key that
    /// switches nothing.
    pub fn module_on(&self, on_key: &str) -> (r: bool)
        ensures
            r == self.module_on_spec(on_key@),
    {
        match fx_module_of(on_key) {
            Some(FxModule::Filter) => self.filter_on,
            Some(FxModule::Chorus) => self.chorus_on,
            Some(FxModule::Reverb) => self.reverb_on,
            Some(FxModule::Limiter) => self.limiter_on,
            Some(FxModule::Delay) => self.delay_on,
            Some(FxModule::Phaser) => self.phaser_on,
            None => false,
        }
    }

    /// Sets the switch that `on_key` names, leaving the others; a key that
    /// switches nothing changes nothing.
    pub fn set_switch(&mut self, on_key: &str, on: bool)
        ensures
            *final(self) == old(self).set_switch_spec(on_key@, on),
    {
        match fx_module_of(on_key) {
            Some(FxModule::Filter) => self.filter_on = on,
            Some(FxModule::Chorus) => self.chorus_on = on,
            Some(FxModule::Reverb) => self.reverb_on = on,
            Some(FxModule::Limiter) => self.limiter_on = on,
            Some(FxModule::Delay) => self.delay_on = on,
            Some(FxModule::Phaser) => self.phaser_on = on,
            None => {},
        }
    }
}

/// A switch reads back what was last written to it, and writing one switch
/// leaves every other module's switch as it was.
pub proof fn lemma_switch_reads_back(s: FxSwitches, key: Seq<char>, other: Seq<char>, on: bool)
    requires
        fx_module_from(key) is Some,
    ensures
        s.set_switch_spec(key, on).module_on_spec(key) == on,
        fx_module_from(other) != fx_module_from(key) ==> s.set_switch_spec(key, on).module_on_spec(other)
            == s.module_on_spec(other),
{
}

} // verus!
