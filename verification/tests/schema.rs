use synesthesia::fx::{
    filter_mode, filter_types_covered, fx_module_of, fx_param_of, BiquadType, FilterMode, FxModule, FxParam,
    FxSwitches,
};
use synesthesia::genes::{
    always_on, card_toggles, change_dir, option_at, choice_index, cont_idx, explicit_coupling_idx, formula_enabled_idx,
    fx_choices, fx_toggles, gate_idx, gene_index, gene_index_of, genome_length, is_gate, lfo_shape_idx,
    mod_target_index, ChangeDir,
};
use synesthesia::schema::{formula_exp_params, FormulaKeys, GeneKind, GeneMeta, ModTarget, SliderKey};

/// The filter types the schema offers: the Web Audio biquads, the formant
/// bank and the comb.
fn schema_filter_types() -> Vec<String> {
    ["lowpass", "highpass", "bandpass", "lowshelf", "highshelf", "peaking", "notch", "allpass", "formant", "comb"]
        .iter()
        .map(|s| s.to_string())
        .collect()
}

fn gene(id: &str, kind: GeneKind, group: &str, gate: Option<&str>) -> GeneMeta {
    GeneMeta { id: id.to_string(), kind, group: group.to_string(), active_if: gate.map(str::to_string) }
}

fn genes() -> Vec<GeneMeta> {
    vec![
        gene("a.fm.enabled", GeneKind::Bool, "a.fm", None),
        gene("a.fm.gain", GeneKind::Cont, "a.fm", Some("a.fm.enabled")),
        gene("a.bell.enabled", GeneKind::Bool, "a.bell", None),
        gene("a.bell.gain", GeneKind::Cont, "a.bell", Some("a.bell.enabled")),
        gene("fx.filterOn", GeneKind::Bool, "fx", None),
        gene("fx.filterType", GeneKind::Choice, "fx", Some("fx.filterOn")),
        gene("fx.chorusMode", GeneKind::Choice, "fx", None),
        gene("fx.phaserStages", GeneKind::Choice, "fx", None),
        gene("v.flow.on", GeneKind::Bool, "v.flow", None),
        gene("v.flow.curl", GeneKind::Cont, "v.flow", Some("v.flow.on")),
        gene("lfo.0.shape", GeneKind::Choice, "lfo.0", None),
        gene("lfo.1.shape", GeneKind::Choice, "lfo.1", None),
        gene("route.0.on", GeneKind::Bool, "route.0", None),
        gene("c.loudToPulse", GeneKind::Cont, "coupling", None),
        gene("c.onsetToFlash", GeneKind::Cont, "coupling", None),
        gene("c.onsetToSeed", GeneKind::Cont, "coupling", None),
        gene("c.spectrumToTint", GeneKind::Cont, "coupling", None),
    ]
}

fn strings(v: &[&str]) -> Vec<String> {
    v.iter().map(|s| s.to_string()).collect()
}

#[test]
fn every_filter_type_in_the_schema_is_implemented() {
    assert!(filter_types_covered(&schema_filter_types()));
}

#[test]
fn an_unknown_filter_type_is_not_covered() {
    assert!(!filter_types_covered(&strings(&["lowpass", "wah"])));
    assert!(filter_types_covered(&vec![]));
    assert_eq!(filter_mode("formant"), FilterMode::Formant);
    assert_eq!(filter_mode("comb"), FilterMode::Comb);
    assert_eq!(filter_mode("notch"), FilterMode::Biquad);
    assert_eq!(BiquadType::parse("highshelf"), Some(BiquadType::Highshelf));
    assert_eq!(BiquadType::parse("Lowpass"), None);
    assert_eq!(BiquadType::default(), BiquadType::Lowpass);
}

#[test]
fn fx_fields_are_reachable_by_the_names_routes_use() {
    let keys = [
        "filterFreq", "filterQ", "filterGain", "filterVowel", "filterCombFb", "chorusRate", "chorusDepth",
        "chorusMix", "chorusFb", "reverbMix", "reverbDecay", "delayTime", "delayFb", "delayMix", "phaserRate",
        "phaserDepth", "phaserFb", "phaserMix", "phaserStages", "limiterThr", "limiterRel",
    ];
    let mut seen: Vec<FxParam> = Vec::new();
    for key in keys {
        let p = fx_param_of(key).unwrap_or_else(|| panic!("no field for {key}"));
        assert!(!seen.contains(&p), "{key} shares a field");
        seen.push(p);
    }
    assert_eq!(fx_param_of("delayTime"), Some(FxParam::DelayTime));
    assert_eq!(fx_param_of("masterGain"), None);
}

#[test]
fn module_switches_read_back_what_was_set() {
    let mut fx = FxSwitches::default();
    for key in ["filterOn", "chorusOn", "reverbOn", "limiterOn", "delayOn", "phaserOn"] {
        assert!(fx_module_of(key).is_some());
        assert!(!fx.module_on(key));
        fx.set_switch(key, true);
        assert!(fx.module_on(key), "{key}");
    }
    assert_eq!(fx_module_of("delayOn"), Some(FxModule::Delay));
    let before = fx;
    fx.set_switch("sparkleOn", false);
    assert_eq!(fx, before);
    assert!(!fx.module_on("sparkleOn"));
    fx.set_switch("chorusOn", false);
    assert!(!fx.chorus_on && fx.filter_on && fx.phaser_on);
}

#[test]
fn gene_ids_map_to_their_positions() {
    let g = genes();
    assert_eq!(genome_length(&g), 17);
    assert_eq!(gene_index_of(&g, "a.fm.enabled"), Some(0));
    assert_eq!(gene_index(&g, "fx.filterType"), gene_index_of(&g, "fx.filterType").unwrap());
    assert_eq!(gene_index(&g, "c.spectrumToTint"), 16);
    assert_eq!(gene_index_of(&g, "a.fm"), None);
}

#[test]
fn a_repeated_id_maps_to_its_last_position() {
    let mut g = genes();
    g.push(gene("a.fm.enabled", GeneKind::Bool, "a.fm", None));
    assert_eq!(gene_index_of(&g, "a.fm.enabled"), Some(17));
}

#[test]
fn the_index_tables_pick_the_right_genes() {
    let g = genes();
    assert_eq!(cont_idx(&g), vec![1, 3, 9, 13, 14, 15, 16]);
    assert_eq!(card_toggles(&g), vec![8]);
    assert_eq!(
        gate_idx(&g),
        vec![None, Some(0), None, Some(2), None, Some(4), None, None, None, Some(8), None, None, None, None, None, None, None]
    );
    let gates = is_gate(&g);
    let on: Vec<usize> = (0..gates.len()).filter(|i| gates[*i]).collect();
    assert_eq!(on, vec![0, 2, 4, 8]);
    assert_eq!(formula_enabled_idx(&g, &strings(&["bell", "fm"])), vec![2, 0]);
    assert_eq!(fx_toggles(&g, &strings(&["filterOn"])), vec![4]);
    assert_eq!(fx_choices(&g), vec![5, 6, 7]);
    assert_eq!(explicit_coupling_idx(&g), vec![13, 14, 15, 16]);
    assert_eq!(lfo_shape_idx(&g, 2), vec![10, 11]);
}

#[test]
fn choices_and_always_on_cards_are_found_by_name() {
    let modes = strings(&["chorus", "flanger", "vibrato"]);
    assert_eq!(choice_index(&modes, "flanger"), 1);
    assert_eq!(choice_index(&modes, "wah"), 0);
    let always = strings(&["palette", "relief"]);
    assert!(always_on(&always, "relief"));
    assert!(!always_on(&always, "flow"));
}

#[test]
fn a_route_target_is_found_by_card_and_param() {
    let t = |target: &str, param: &str| ModTarget {
        target: target.to_string(),
        param: param.to_string(),
        exp: false,
        label: format!("{target} {param}"),
    };
    let targets = vec![t("fx", "filterFreq"), t("flow", "curl"), t("fm", "gain"), t("flow", "curl")];
    assert_eq!(mod_target_index(&targets, "flow", "curl"), Some(1));
    assert_eq!(mod_target_index(&targets, "fm", "gain"), Some(2));
    assert_eq!(mod_target_index(&targets, "fm", "curl"), None);
}

#[test]
fn frequency_like_sliders_are_listed_in_order() {
    let k = |k: &str, exp: bool| SliderKey { k: k.to_string(), exp };
    let formulas = vec![
        FormulaKeys { id: "fm".to_string(), sliders: vec![k("carrier", true), k("index", false), k("ratio", true)] },
        FormulaKeys { id: "bell".to_string(), sliders: vec![k("gain", false)] },
    ];
    assert_eq!(formula_exp_params(&formulas, "fm"), strings(&["carrier", "ratio"]));
    assert!(formula_exp_params(&formulas, "bell").is_empty());
    assert!(formula_exp_params(&formulas, "rain").is_empty());
}

#[test]
fn the_diff_direction_follows_the_gene_kind() {
    assert_eq!(change_dir(GeneKind::Bool, true, false), ChangeDir::On);
    assert_eq!(change_dir(GeneKind::Bool, false, true), ChangeDir::Off);
    assert_eq!(change_dir(GeneKind::Choice, true, true), ChangeDir::Switch);
    assert_eq!(change_dir(GeneKind::Cont, false, true), ChangeDir::Up);
    assert_eq!(change_dir(GeneKind::Cont, true, false), ChangeDir::Down);
}

#[test]
fn a_choice_index_past_the_end_picks_the_first_option() {
    let modes = strings(&["chorus", "flanger"]);
    assert_eq!(option_at(&modes, 1), "flanger");
    assert_eq!(option_at(&modes, 7), "chorus");
    assert_eq!(option_at(&vec![], 0), "");
}
