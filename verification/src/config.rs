//! The persisted LED configuration and its loading rules.
//!
//! The store keeps the brightness, the current mode, the configured
//! effects per mode (global and per zone) and the power-state flags.
//! `set_builtin` is the routing rule for a configured effect; `load_action`
//! and `read_action` say what the daemon does with the bytes found in the
//! configuration file, including the self-healing path for a corrupt file.

use vstd::prelude::*;

use crate::aura::{AuraEffect, AuraModeNum, AuraZone, LaptopLedData, LedBrightness,
    LedPowerStates};
use crate::codec::{spec_mz_view, spec_render_config};
use crate::maps::{assoc_first, by_mode, by_zone, BuiltinMap, MultizoneMap};

verus! {

/// The abstract value of a configuration: what the file stores.
pub ghost struct AuraConfigModel {
    pub brightness: LedBrightness,
    pub current_mode: AuraModeNum,
    pub builtins: Seq<AuraEffect>,
    pub multizone: Option<Seq<(AuraModeNum, Seq<AuraEffect>)>>,
    pub power_states: LedPowerStates,
}

/// The persisted configuration.
#[derive(Debug, Clone, PartialEq)]
pub struct AuraConfig {
    pub brightness: LedBrightness,
    pub current_mode: AuraModeNum,
    pub builtins: BuiltinMap,
    pub multizone: Option<MultizoneMap>,
    pub power_states: LedPowerStates,
}

impl View for AuraConfig {
    type V = AuraConfigModel;

    open spec fn view(&self) -> AuraConfigModel {
        AuraConfigModel {
            brightness: self.brightness,
            current_mode: self.current_mode,
            builtins: self.builtins@,
            multizone: spec_mz_view(&self.multizone),
            power_states: self.power_states,
        }
    }
}

/// The power-state flags a fresh configuration starts with: everything
/// switched on.
pub open spec fn spec_all_on() -> LedPowerStates {
    LedPowerStates {
        boot_anim: true,
        sleep_anim: true,
        all_leds: true,
        keys_leds: true,
        side_leds: true,
    }
}

impl Default for AuraConfig {
    /// A fresh configuration: medium brightness, `Static` mode, no
    /// stored effects, no multizone store, every power flag on.
    fn default() -> (r: AuraConfig)
        ensures
            r.wf(),
            r.brightness == LedBrightness::Med,
            r.current_mode == AuraModeNum::Static,
            r@.builtins == Seq::<AuraEffect>::empty(),
            r.multizone is None,
            r.power_states == spec_all_on(),
    {
        AuraConfig {
            brightness: LedBrightness::Med,
            current_mode: AuraModeNum::Static,
            builtins: BuiltinMap::new(),
            multizone: None,
            power_states: LedPowerStates {
                boot_anim: true,
                sleep_anim: true,
                all_leds: true,
                keys_leds: true,
                side_leds: true,
            },
        }
    }
}

impl AuraConfig {
    /// Both stores keep their ordering invariants.
    pub open spec fn wf(self) -> bool {
        &&& self.builtins.wf()
        &&& match self.multizone {
            Some(m) => m.wf(),
            None => true,
        }
    }

    /// A defaults configuration seeded from the capability list: every
    /// supported mode gets its mode-default effect.
    pub fn create_default(support: &LaptopLedData) -> (r: AuraConfig)
        ensures
            r.wf(),
            spec_is_default_for(r@, support.standard@),
    {
        let mut config = AuraConfig::default();
        let n = support.standard.len();
        let mut i: usize = 0;
        while i < n
            invariant
                n == support.standard@.len(),
                i <= n,
                config.brightness == LedBrightness::Med,
                config.current_mode == AuraModeNum::Static,
                config.multizone is None,
                config.power_states == spec_all_on(),
                config.builtins.wf(),
                forall|m: AuraModeNum|
                    support.standard@.subrange(0, i as int).contains(m)
                        ==> config.builtins.spec_get(m) == Some(
                        AuraEffect::spec_default_with_mode(m),
                    ),
                forall|m: AuraModeNum|
                    !support.standard@.subrange(0, i as int).contains(m)
                        ==> config.builtins.spec_get(m) is None,
            decreases n - i,
        {
            let mode = support.standard[i];
            config.builtins.insert(AuraEffect::default_with_mode(mode));
            proof {
                let x = support.standard@[i as int];
                let pre = support.standard@.subrange(0, i as int);
                let post = support.standard@.subrange(0, i as int + 1);
                assert(post =~= pre.push(x));
                assert forall|m: AuraModeNum| post.contains(m) implies pre.contains(m) || m
                    == x by {
                    let k = choose|k: int| 0 <= k < post.len() && post[k] == m;
                    if k < pre.len() {
                        assert(pre[k] == m);
                    }
                }
                assert forall|m: AuraModeNum| pre.contains(m) implies post.contains(m) by {
                    let k = choose|k: int| 0 <= k < pre.len() && pre[k] == m;
                    assert(post[k] == m);
                }
                assert(post[i as int] == x);
                assert(post.contains(x));
            }
            i = i + 1;
        }
        proof {
            assert(i == n);
            assert(support.standard@.subrange(0, n as int) =~= support.standard@);
            assert forall|m: AuraModeNum| support.standard@.contains(m) implies
                config.builtins.spec_get(m) == Some(AuraEffect::spec_default_with_mode(m)) by {
                assert(support.standard@.subrange(0, i as int).contains(m));
            }
            assert forall|m: AuraModeNum| !support.standard@.contains(m) implies
                config.builtins.spec_get(m) is None by {
                assert(!support.standard@.subrange(0, i as int).contains(m));
            }
            assert forall|m: AuraModeNum| support.standard@.contains(m) implies assoc_first(
                config@.builtins,
                by_mode(),
                m,
            ) == Some(AuraEffect::spec_default_with_mode(m)) by {
                assert(config.builtins.spec_get(m) == Some(
                    AuraEffect::spec_default_with_mode(m),
                ));
            }
            assert forall|m: AuraModeNum| !support.standard@.contains(m) implies assoc_first(
                config@.builtins,
                by_mode(),
                m,
            ) is None by {
                assert(config.builtins.spec_get(m) is None);
            }
        }
        config
    }

    /// Routes a configured effect into the right store.  A whole-keyboard
    /// effect replaces the builtin entry for its mode and leaves the
    /// multizone store untouched.  A zoned effect goes into the multizone
    /// store: it replaces the entry for its zone in its mode's list (or
    /// joins the list), leaves other zones and modes untouched, and is
    /// dropped silently when no multizone store was ever initialised.
    /// Brightness, current mode and power states never change.
    pub fn set_builtin(&mut self, effect: AuraEffect)
        requires
            old(self).wf(),
        ensures
            final(self).wf(),
            spec_set_builtin_rel(old(self)@, final(self)@, effect),
    {
        if effect.zone() == AuraZone::Global {
            let ghost pre = self.builtins;
            self.builtins.insert(effect);
            proof {
                assert forall|m: AuraModeNum| m != effect.mode implies assoc_first(
                    self@.builtins,
                    by_mode(),
                    m,
                ) == assoc_first(pre@, by_mode(), m) by {
                    assert(self.builtins.spec_get(m) == pre.spec_get(m));
                }
                assert(self.builtins.spec_get(effect.mode) == Some(effect));
            }
        } else {
            match &mut self.multizone {
                Some(m) => {
                    let ghost pre_m = *m;
                    m.upsert_zone(effect);
                    proof {
                        assert forall|md: AuraModeNum| md != effect.mode implies assoc_first(
                            m@,
                            crate::maps::by_fst(),
                            md,
                        ) == assoc_first(pre_m@, crate::maps::by_fst(), md) by {
                            assert(m.spec_get(md) == pre_m.spec_get(md));
                            crate::maps::lemma_assoc_found(m@, crate::maps::by_fst(), md);
                            crate::maps::lemma_assoc_found(pre_m@, crate::maps::by_fst(), md);
                        }
                        assert(m.spec_get(effect.mode) is Some);
                        assert(pre_m.spec_get(effect.mode) == match assoc_first(
                            pre_m@,
                            crate::maps::by_fst(),
                            effect.mode,
                        ) {
                            Some(p) => Some(p.1),
                            None => None,
                        });
                    }
                },
                None => {},
            }
        }
    }

    /// The list of zoned effects stored for `aura_type`, if any.
    pub fn get_multizone(&self, aura_type: AuraModeNum) -> (r: Option<Vec<AuraEffect>>)
        ensures
            match spec_mz_view(&self.multizone) {
                None => r is None,
                Some(entries) => {
                    &&& r is Some <==> assoc_first(entries, crate::maps::by_fst(), aura_type)
                        is Some
                    &&& r is Some ==> r.unwrap()@ == assoc_first(
                        entries,
                        crate::maps::by_fst(),
                        aura_type,
                    ).unwrap().1
                },
            },
    {
        match &self.multizone {
            Some(m) => m.get(aura_type),
            None => None,
        }
    }

    /// Renders this configuration into the canonical file text.
    pub fn to_bytes(&self) -> (r: Vec<u8>)
        ensures
            r@ == spec_render_config(self@),
    {
        crate::codec::render_config(self)
    }
}

/// Well-formedness of an abstract configuration: both stores keep their
/// ordering invariants.
pub open spec fn model_wf(c: AuraConfigModel) -> bool {
    &&& crate::maps::sorted_by_mode(c.builtins)
    &&& match c.multizone {
        Some(entries) => crate::maps::sorted_by_fst(entries) && forall|k: int|
            0 <= k < entries.len() ==> crate::maps::inner_wf(entries[k].0, entries[k].1),
        None => true,
    }
}

/// A well-formed configuration store has a well-formed abstract value,
/// as `lemma_config_round_trip` asks for.
pub proof fn lemma_wf_model(c: AuraConfig)
    requires
        c.wf(),
    ensures
        model_wf(c@),
{
}

/// `c` is the defaults configuration seeded from `support`: fresh field
/// values, and exactly the supported modes carry their default effect.
pub open spec fn spec_is_default_for(c: AuraConfigModel, support: Seq<AuraModeNum>) -> bool {
    &&& c.brightness == LedBrightness::Med
    &&& c.current_mode == AuraModeNum::Static
    &&& c.multizone is None
    &&& c.power_states == spec_all_on()
    &&& forall|m: AuraModeNum|
        support.contains(m) ==> assoc_first(c.builtins, by_mode(), m) == Some(
            AuraEffect::spec_default_with_mode(m),
        )
    &&& forall|m: AuraModeNum|
        !support.contains(m) ==> assoc_first(c.builtins, by_mode(), m) is None
}


/// The routing rule of `set_builtin`, as a relation between the
/// configuration before and after.  A whole-keyboard effect replaces the
/// builtin entry for its mode; a zoned effect replaces its zone's entry
/// in its mode's multizone list (or joins it, or opens a fresh list for
/// the mode), and is dropped when no multizone store exists.  Everything
/// else is untouched.
pub open spec fn spec_set_builtin_rel(
    pre: AuraConfigModel,
    post: AuraConfigModel,
    effect: AuraEffect,
) -> bool {
    &&& post.brightness == pre.brightness
    &&& post.current_mode == pre.current_mode
    &&& post.power_states == pre.power_states
    &&& if effect.zone == AuraZone::Global {
        &&& assoc_first(post.builtins, by_mode(), effect.mode) == Some(effect)
        &&& forall|m: AuraModeNum|
            m != effect.mode ==> assoc_first(post.builtins, by_mode(), m) == assoc_first(
                pre.builtins,
                by_mode(),
                m,
            )
        &&& post.multizone == pre.multizone
    } else {
        &&& post.builtins == pre.builtins
        &&& match (pre.multizone, post.multizone) {
            (Option::None, Option::None) => true,
            (Option::Some(v0s), Option::Some(v1s)) => {
                &&& assoc_first(v1s, crate::maps::by_fst(), effect.mode) is Some
                &&& forall|md: AuraModeNum|
                    md != effect.mode ==> assoc_first(v1s, crate::maps::by_fst(), md)
                        == assoc_first(v0s, crate::maps::by_fst(), md)
                &&& match (
                    assoc_first(v0s, crate::maps::by_fst(), effect.mode),
                    assoc_first(v1s, crate::maps::by_fst(), effect.mode),
                ) {
                    (Option::Some(p0), Option::Some(p1)) => {
                        &&& assoc_first(p1.1, by_zone(), effect.zone) == Some(effect)
                        &&& forall|z: AuraZone|
                            z != effect.zone ==> assoc_first(p1.1, by_zone(), z) == assoc_first(
                                p0.1,
                                by_zone(),
                                z,
                            )
                        &&& p1.1.len() == if assoc_first(p0.1, by_zone(), effect.zone) is Some {
                            p0.1.len()
                        } else {
                            p0.1.len() + 1
                        }
                    },
                    (Option::None, Option::Some(p1)) => p1.1 == seq![effect],
                    _ => false,
                }
            },
            _ => false,
        }
    }
}

/// What the loader does with the bytes found in the configuration file.
pub enum LoadAction {
    /// The file parsed: use it as it stands.
    UseExisting(AuraConfig),
    /// The file was empty: persist and use a fresh defaults
    /// configuration (the rendered bytes are carried along).
    CreateDefault(AuraConfig, Vec<u8>),
    /// The file held text the codec does not accept: move it aside as a
    /// backup, then persist and use a fresh defaults configuration.
    BackupAndCreate(AuraConfig, Vec<u8>),
}

impl AuraConfig {
    /// Decides what to do with the configuration file's bytes at
    /// start-up.  An empty file yields defaults to persist; a parsable
    /// file is used as it stands; anything else is backed up and
    /// replaced by defaults, so a corrupt file heals itself without
    /// losing its bytes.
    pub fn load_action(text: &[u8], support: &LaptopLedData) -> (r: LoadAction)
        ensures
            match r {
                LoadAction::UseExisting(c) => {
                    &&& text@.len() > 0
                    &&& text@.len() <= usize::MAX - 8
                    &&& crate::codec::spec_parse_config_total(text@) == Some(c@)
                    &&& c.wf()
                },
                LoadAction::CreateDefault(c, rendered) => {
                    &&& text@.len() == 0
                    &&& c.wf()
                    &&& spec_is_default_for(c@, support.standard@)
                    &&& rendered@ == spec_render_config(c@)
                },
                LoadAction::BackupAndCreate(c, rendered) => {
                    &&& text@.len() > 0
                    &&& (text@.len() <= usize::MAX - 8 ==> crate::codec::spec_parse_config_total(
                        text@,
                    ) is None)
                    &&& c.wf()
                    &&& spec_is_default_for(c@, support.standard@)
                    &&& rendered@ == spec_render_config(c@)
                },
            },
    {
        if text.len() == 0 {
            let c = AuraConfig::create_default(support);
            let rendered = c.to_bytes();
            return LoadAction::CreateDefault(c, rendered);
        }
        match crate::codec::parse_config(text) {
            Some(c) => LoadAction::UseExisting(c),
            None => {
                let c = AuraConfig::create_default(support);
                let rendered = c.to_bytes();
                LoadAction::BackupAndCreate(c, rendered)
            },
        }
    }
}

/// Loading an already-populated valid file is idempotent: any two loads
/// that accept the same file text hold the same configuration, and a
/// load that accepts the file persists nothing.
pub proof fn lemma_load_idempotent(c1: AuraConfig, c2: AuraConfig, t: Seq<u8>)
    requires
        crate::codec::spec_parse_config_total(t) == Some(c1@),
        crate::codec::spec_parse_config_total(t) == Some(c2@),
    ensures
        c1@ == c2@,
{
}

impl AuraConfig {
    /// Replaces this configuration with what the file holds, as the
    /// re-read before a mutation does: an empty file leaves it
    /// untouched, a parsable file replaces it wholesale, and anything
    /// else is an error the caller treats as fatal.
    pub fn read_from(&mut self, text: &[u8]) -> (r: Result<(), crate::error::RogError>)
        ensures
            text@.len() == 0 ==> r is Ok && *final(self) == *old(self),
            text@.len() > 0 && text@.len() <= usize::MAX - 8
                && crate::codec::spec_parse_config_total(text@) is Some ==> {
                &&& r is Ok
                &&& final(self)@ == crate::codec::spec_parse_config_total(text@).unwrap()
                &&& final(self).wf()
            },
            text@.len() > 0 && (text@.len() > usize::MAX - 8
                || crate::codec::spec_parse_config_total(text@) is None) ==> {
                &&& r == Result::<(), crate::error::RogError>::Err(
                    crate::error::RogError::ParseConfig,
                )
                &&& *final(self) == *old(self)
            },
    {
        if text.len() == 0 {
            return Ok(());
        }
        match crate::codec::parse_config(text) {
            Some(c) => {
                *self = c;
                Ok(())
            },
            None => Err(crate::error::RogError::ParseConfig),
        }
    }
}

} // verus!
