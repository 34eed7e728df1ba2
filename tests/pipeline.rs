use chatdownloader::{
    get_leaderboards, largest_webp, AggregateError, Aggregator, BadgeCatalog, BadgeInformation, Badges,
    BasicInfo, Bits, ChatLogProcessor, ChatMessageFragment, ChatPerformance, Comment,
    CopypastaLeaders, Emote, EmoteCatalog, Emotes, Leaderboard, LeaderboardError,
    LeaderboardInnerState, LeaderboardState, MetadataComponent, MetadataTypes, MetadataUpdate,
    MetricComponent, MetricUpdate, NonVIPS, Overall, PerformanceType, ProcessError, Registry,
    RegistryError, SevenTVEmote, SpecialRole, Update, UserBadge,
};

fn s(x: &str) -> String {
    x.to_string()
}

fn comment(id: &str, text: &str, bits: u32) -> Comment {
    Comment {
        commenter_id: s(id),
        display_name: format!("{}_name", id),
        logo: format!("https://img/{}", id),
        bits_spent: bits,
        fragments: vec![ChatMessageFragment { text: s(text), emoticon: None }],
        user_badges: None,
    }
}

fn metric(name: &str, entries: &[(&str, u64)]) -> Update {
    Update::Metric(MetricUpdate {
        metric_name: s(name),
        updates: entries.iter().map(|(p, v)| (s(p), *v)).collect(),
    })
}

fn metadata(name: &str, entries: Vec<(&str, MetadataTypes)>) -> Update {
    Update::Metadata(MetadataUpdate {
        metadata_name: s(name),
        updates: entries.into_iter().map(|(p, v)| (s(p), v)).collect(),
    })
}

fn registry() -> Registry {
    let mut reg = Registry::new();
    reg.register_metric(s("bits"), 0).unwrap();
    reg.register_metric(s("chat"), 0).unwrap();
    reg.register_metadata(s("badges"), MetadataTypes::BadgeList(vec![])).unwrap();
    reg.register_metadata(s("special_role"), MetadataTypes::Bool(false)).unwrap();
    reg
}

fn find<'a>(recs: &'a [ChatPerformance], id: &str) -> &'a ChatPerformance {
    recs.iter().find(|r| r.id == id).expect("record")
}

fn metric_of(rec: &ChatPerformance, name: &str) -> u64 {
    rec.metrics.iter().find(|(n, _)| n == name).unwrap().1
}

fn badge(desc: &str) -> BadgeInformation {
    BadgeInformation { description: s(desc), image_url: format!("https://badge/{}", desc) }
}

fn record(id: &str, metrics: Vec<(&str, u64)>, special: bool) -> ChatPerformance {
    ChatPerformance {
        id: s(id),
        perf_type: PerformanceType::User,
        username: format!("{}_name", id),
        avatar: s("avatar"),
        metrics: metrics.into_iter().map(|(n, v)| (s(n), v)).collect(),
        metadata: vec![(s("special_role"), MetadataTypes::Bool(special))],
    }
}

#[test]
fn bits_contributions_add_up() {
    // 1.0 and 0.5 points, in hundredths
    let updates = vec![
        metric("bits", &[("A", 100)]),
        metric("bits", &[]),
        metric("bits", &[("A", 50)]),
        metric("chat", &[("B", 7)]),
    ];
    let recs = chatdownloader::aggregate(registry(), &updates).unwrap();
    assert_eq!(recs.len(), 2);
    assert_eq!(metric_of(find(&recs, "A"), "bits"), 150);
    assert_eq!(metric_of(find(&recs, "B"), "bits"), 0);
    assert_eq!(metric_of(find(&recs, "B"), "chat"), 7);
}

#[test]
fn participant_without_updates_has_no_record() {
    let updates = vec![metric("bits", &[("A", 100)]), metric("bits", &[]), metric("bits", &[("A", 50)])];
    let recs = chatdownloader::aggregate(registry(), &updates).unwrap();
    assert_eq!(recs.len(), 1);
    assert!(recs.iter().all(|r| r.id != "B"));
}

#[test]
fn later_badge_update_wins() {
    let updates = vec![
        metadata("badges", vec![("A", MetadataTypes::BadgeList(vec![badge("X")]))]),
        metric("bits", &[("A", 1)]),
        metadata("badges", vec![("A", MetadataTypes::BadgeList(vec![]))]),
    ];
    let recs = chatdownloader::aggregate(registry(), &updates).unwrap();
    let a = find(&recs, "A");
    let badges = a.metadata.iter().find(|(n, _)| n == "badges").unwrap();
    assert_eq!(badges.1.get_badge_list().unwrap().len(), 0);
}

#[test]
fn metric_totals_ignore_interleaving() {
    let first = vec![
        metric("bits", &[("A", 10)]),
        metadata("special_role", vec![("A", MetadataTypes::Bool(true))]),
        metric("chat", &[("A", 3)]),
        metric("bits", &[("A", 5)]),
    ];
    let second = vec![
        metric("chat", &[("A", 3)]),
        metric("bits", &[("A", 10)]),
        metric("bits", &[("A", 5)]),
        metadata("special_role", vec![("A", MetadataTypes::Bool(true))]),
    ];
    let r1 = chatdownloader::aggregate(registry(), &first).unwrap();
    let r2 = chatdownloader::aggregate(registry(), &second).unwrap();
    for name in ["bits", "chat"] {
        assert_eq!(metric_of(find(&r1, "A"), name), metric_of(find(&r2, "A"), name));
    }
    assert_eq!(metric_of(find(&r1, "A"), "bits"), 15);
}

#[test]
fn every_referenced_participant_has_every_field() {
    let updates = vec![
        metric("bits", &[("A", 1)]),
        metadata("special_role", vec![("C", MetadataTypes::Bool(true))]),
        metric("unregistered", &[("D", 4)]),
    ];
    let recs = chatdownloader::aggregate(registry(), &updates).unwrap();
    assert_eq!(recs.len(), 3);
    for r in &recs {
        let names: Vec<&str> = r.metrics.iter().map(|(n, _)| n.as_str()).collect();
        assert_eq!(names, vec!["bits", "chat"]);
        let names: Vec<&str> = r.metadata.iter().map(|(n, _)| n.as_str()).collect();
        assert_eq!(names, vec!["badges", "special_role"]);
    }
    assert_eq!(metric_of(find(&recs, "D"), "bits"), 0);
    assert_eq!(find(&recs, "C").perf_type, PerformanceType::Unknown);
}

#[test]
fn basic_info_sets_identity() {
    let mut reg = registry();
    reg.register_metadata(s("basic_info"), MetadataTypes::Bool(false)).unwrap();
    let updates = vec![metadata(
        "basic_info",
        vec![("A", MetadataTypes::BasicInfo(s("Alice"), s("https://a"), PerformanceType::User))],
    )];
    let recs = chatdownloader::aggregate(reg, &updates).unwrap();
    let a = find(&recs, "A");
    assert_eq!(a.username, "Alice");
    assert_eq!(a.avatar, "https://a");
    assert_eq!(a.perf_type, PerformanceType::User);
    let stored = a.metadata.iter().find(|(n, _)| n == "basic_info").unwrap();
    assert_eq!(stored.1.get_bool(), Some(&false));
}

#[test]
fn basic_info_of_wrong_shape_clears_identity() {
    let updates = vec![
        metadata("basic_info", vec![("A", MetadataTypes::BasicInfo(s("Alice"), s("u"), PerformanceType::User))]),
        metadata("basic_info", vec![("A", MetadataTypes::Bool(true))]),
    ];
    let recs = chatdownloader::aggregate(registry(), &updates).unwrap();
    let a = find(&recs, "A");
    assert_eq!(a.username, "");
    assert_eq!(a.avatar, "");
    assert_eq!(a.perf_type, PerformanceType::Unknown);
}

#[test]
fn metric_overflow_is_an_error() {
    let updates = vec![metric("bits", &[("A", u64::MAX)]), metric("bits", &[("A", 1)])];
    assert_eq!(chatdownloader::aggregate(registry(), &updates).unwrap_err(), AggregateError::Overflow);
    let fits = vec![metric("bits", &[("A", u64::MAX - 1)]), metric("bits", &[("A", 1)])];
    let recs = chatdownloader::aggregate(registry(), &fits).unwrap();
    assert_eq!(metric_of(&recs[0], "bits"), u64::MAX);
}

#[test]
fn aggregator_applies_streams_step_by_step() {
    let mut agg = Aggregator::new(registry());
    agg.apply_metric_update(&MetricUpdate { metric_name: s("bits"), updates: vec![(s("A"), 3)] }).unwrap();
    agg.apply_metadata_update(&MetadataUpdate {
        metadata_name: s("special_role"),
        updates: vec![(s("B"), MetadataTypes::Bool(true))],
    });
    agg.apply_metric_update(&MetricUpdate { metric_name: s("bits"), updates: vec![(s("A"), 4)] }).unwrap();
    assert_eq!(agg.find_record(&s("A")), Some(0));
    assert_eq!(agg.find_record(&s("B")), Some(1));
    assert_eq!(agg.find_record(&s("C")), None);
    assert_eq!(metric_of(&agg.records[0], "bits"), 7);
}

#[test]
fn duplicate_names_are_refused() {
    let mut reg = Registry::new();
    assert_eq!(reg.register_metric(s("bits"), 0), Ok(()));
    assert_eq!(reg.register_metric(s("bits"), 0), Err(RegistryError::DuplicateName));
    assert_eq!(reg.register_metadata(s("bits"), MetadataTypes::Bool(false)), Ok(()));
    assert_eq!(reg.register_metadata(s("bits"), MetadataTypes::Bool(false)), Err(RegistryError::DuplicateName));
    let p = ChatLogProcessor::new(
        vec![MetricComponent::Bits(Bits::new()), MetricComponent::Bits(Bits::new())],
        vec![],
    );
    assert!(matches!(p.parse_from_log_object(&vec![comment("A", "hi", 1)]), Err(ProcessError::DuplicateName)));
}

#[test]
fn bits_metric_weighs_each_bit() {
    let u = Bits::new().get_metric(&comment("A", "cheer", 25), 0);
    assert_eq!(u.metric_name, "bits");
    assert_eq!(u.updates, vec![(s("A"), 250)]);
    assert!(Bits::new().can_parallelize());
}

fn catalog() -> EmoteCatalog {
    let mut c = EmoteCatalog::new();
    c.insert(SevenTVEmote { name: s("KEKW"), emote_url: s("https://7tv/kekw") });
    c.insert(SevenTVEmote { name: s("Pog"), emote_url: s("https://7tv/pog") });
    c
}

#[test]
fn emotes_are_found_word_by_word() {
    let c = catalog();
    let found = c.get_7tv_emotes_in_fragment(&s("KEKW  hi Pog KEKW KEKWW"));
    let names: Vec<&str> = found.iter().map(|e| e.name.as_str()).collect();
    assert_eq!(names, vec!["KEKW", "Pog", "KEKW"]);
    assert_eq!(found[1].emote_url, "https://7tv/pog");
    assert!(c.get_7tv_emotes_in_fragment(&s("")).is_empty());
}

#[test]
fn later_catalog_entry_wins() {
    let mut c = catalog();
    c.insert(SevenTVEmote { name: s("Pog"), emote_url: s("https://7tv/pog2") });
    let found = c.get_7tv_emotes_in_fragment(&s("Pog"));
    assert_eq!(found[0].emote_url, "https://7tv/pog2");
}

#[test]
fn emote_metric_scores_sender_and_emotes() {
    let m = Emote::new(catalog());
    let mut c = comment("A", "KEKW hello KEKW Pog", 0);
    c.fragments.push(ChatMessageFragment { text: s("Kappa"), emoticon: Some(s("25")) });
    let u = m.get_metric(&c, 3);
    assert_eq!(u.metric_name, "emote");
    let get = |k: &str| u.updates.iter().find(|(n, _)| n == k).unwrap().1;
    // four emote uses at two hundredths each
    assert_eq!(get("A"), 8);
    assert_eq!(get("KEKW"), 200);
    assert_eq!(get("Pog"), 100);
    assert_eq!(u.updates.len(), 3);
    assert!(!m.can_parallelize());
}

#[test]
fn emote_metric_sender_named_like_emote() {
    let m = Emote::new(catalog());
    let u = m.get_metric(&comment("Pog", "Pog Pog", 0), 0);
    assert_eq!(u.updates, vec![(s("Pog"), 4)]);
}

#[test]
fn emote_metadata_gives_emote_identity() {
    let m = Emotes::new(catalog());
    let u = m.get_metadata(&comment("A", "Pog KEKW Pog", 0), 0);
    assert_eq!(u.metadata_name, "emote");
    assert_eq!(u.updates.len(), 2);
    let (name, v) = &u.updates[0];
    assert_eq!(name, "Pog");
    assert_eq!(v.get_basic_info(), Some((s("Pog"), s("https://7tv/pog"), PerformanceType::Emote)));
    assert_eq!(m.get_default_value().get_bool(), Some(&false));
}

#[test]
fn badges_are_looked_up_and_unknown_ones_skipped() {
    let mut cat = BadgeCatalog::new();
    cat.insert(s("subscriber"), s("12"), badge("sub12"));
    cat.insert(s("vip"), s("1"), badge("vip"));
    let b = Badges::new(cat);
    let mut c = comment("A", "hi", 0);
    c.user_badges = Some(vec![
        UserBadge { id: s("vip"), version: s("1") },
        UserBadge { id: s("subscriber"), version: s("3") },
        UserBadge { id: s("subscriber"), version: s("12") },
    ]);
    let u = b.get_metadata(&c, 0);
    assert_eq!(u.metadata_name, "badges");
    let list = u.updates[0].1.get_badge_list().unwrap();
    let descs: Vec<&str> = list.iter().map(|x| x.description.as_str()).collect();
    assert_eq!(descs, vec!["vip", "sub12"]);
    let none = b.get_metadata(&comment("B", "hi", 0), 0);
    assert_eq!(none.updates[0].0, "B");
    assert!(none.updates[0].1.get_badge_list().unwrap().is_empty());
}

#[test]
fn basic_info_and_special_role_components() {
    let u = BasicInfo::new().get_metadata(&comment("A", "hi", 0), 0);
    assert_eq!(u.metadata_name, "basic_info");
    assert_eq!(u.updates[0].1.get_basic_info(), Some((s("A_name"), s("https://img/A"), PerformanceType::User)));
    let roles = SpecialRole::new(vec![s("M")]);
    assert_eq!(roles.get_metadata(&comment("M", "hi", 0), 0).updates[0].1.get_bool(), Some(&true));
    assert_eq!(roles.get_metadata(&comment("A", "hi", 0), 0).updates[0].1.get_bool(), Some(&false));
    assert_eq!(roles.get_name(), "special_role");
}

#[test]
fn metadata_accessors_match_variant() {
    let b = MetadataTypes::Bool(true);
    assert_eq!(b.get_bool(), Some(&true));
    assert!(b.get_badge_list().is_none());
    assert!(b.get_basic_info().is_none());
    let l = MetadataTypes::BadgeList(vec![badge("x")]);
    assert_eq!(l.get_badge_list().unwrap()[0].description, "x");
    assert!(l.get_bool().is_none());
}

#[test]
fn persisted_total_grows_only_on_save() {
    // the store holds 10 points for A
    let mut store = vec![LeaderboardInnerState { id: s("A"), username: s("a"), avatar: s("x"), score: 1000 }];
    let state = LeaderboardState::from_entries(store.iter().map(|e| e.duplicate()).collect()).unwrap();
    let mut board = Overall::new(state);
    board.update(&record("A", vec![("bits", 500)], false)).unwrap();
    assert_eq!(store[0].score, 1000);
    store = board.save();
    assert_eq!(store.len(), 1);
    assert_eq!(store[0].score, 1500);
    assert_eq!(store[0].username, "A_name");
}

#[test]
fn excluded_record_leaves_state_untouched() {
    let mut board = NonVIPS::new(LeaderboardState::new());
    board.update(&record("V", vec![("bits", 500)], true)).unwrap();
    assert!(board.save().is_empty());
    board.update(&record("N", vec![("bits", 500), ("chat", 20)], false)).unwrap();
    let saved = board.save();
    assert_eq!(saved.len(), 1);
    assert_eq!(saved[0].score, 520);
    let mut emote = record("E", vec![("bits", 1)], false);
    emote.perf_type = PerformanceType::Emote;
    assert_eq!(board.score(&emote), None);
}

#[test]
fn copypasta_scores_its_own_metric() {
    let board = CopypastaLeaders::new(LeaderboardState::new());
    assert_eq!(board.calculate_score(&record("A", vec![("bits", 5), ("copypasta", 300)], false)), Some(300));
    assert_eq!(board.calculate_score(&record("A", vec![("bits", 5)], false)), Some(0));
    assert_eq!(board.get_name(), "copypasta");
}

#[test]
fn leaderboard_state_errors() {
    let e = |id: &str, score: u128| LeaderboardInnerState { id: s(id), username: s(""), avatar: s(""), score };
    assert!(matches!(
        LeaderboardState::from_entries(vec![e("A", 1), e("A", 2)]),
        Err(LeaderboardError::DuplicateParticipant)
    ));
    let mut board = Overall::new(LeaderboardState::from_entries(vec![e("A", u128::MAX)]).unwrap());
    assert_eq!(board.update(&record("A", vec![("bits", 1)], false)), Err(LeaderboardError::ScoreOverflow));
    assert_eq!(board.save()[0].score, u128::MAX);
}

fn processor() -> ChatLogProcessor {
    let mut roles = Vec::new();
    roles.push(s("B"));
    ChatLogProcessor::new(
        vec![MetricComponent::Bits(Bits::new()), MetricComponent::Emote(Emote::new(catalog()))],
        vec![
            MetadataComponent::BasicInfo(BasicInfo::new()),
            MetadataComponent::Badges(Badges::new(BadgeCatalog::new())),
            MetadataComponent::SpecialRole(SpecialRole::new(roles)),
        ],
    )
}

#[test]
fn replaying_twice_gives_identical_results() {
    let log = vec![comment("A", "Pog", 10), comment("B", "hi", 0), comment("A", "KEKW", 5)];
    let p = processor();
    let r1 = p.parse_from_log_object(&log).unwrap();
    let r2 = p.parse_from_log_object(&log).unwrap();
    assert_eq!(r1.len(), r2.len());
    for (a, b) in r1.iter().zip(r2.iter()) {
        assert_eq!(a.id, b.id);
        assert_eq!(a.metrics, b.metrics);
        assert_eq!(a.username, b.username);
    }
    let a = find(&r1, "A");
    assert_eq!(metric_of(a, "bits"), 150);
    assert_eq!(metric_of(a, "emote"), 4);
    assert_eq!(a.username, "A_name");
    let mut boards1 = get_leaderboards();
    let mut boards2 = get_leaderboards();
    for rec in r1.iter() {
        for b in boards1.iter_mut() {
            b.update(rec).unwrap();
        }
    }
    for rec in r2.iter() {
        for b in boards2.iter_mut() {
            b.update(rec).unwrap();
        }
    }
    for (x, y) in boards1.iter().zip(boards2.iter()) {
        let (sx, sy) = (x.save(), y.save());
        assert_eq!(sx.len(), sy.len());
        for (e, f) in sx.iter().zip(sy.iter()) {
            assert_eq!((e.id.clone(), e.score), (f.id.clone(), f.score));
        }
    }
    let nonvips = boards1.iter().find(|b| b.get_name() == "nonvips").unwrap();
    assert!(nonvips.save().iter().all(|e| e.id != "B"));
    assert!(matches!(boards1[0], Leaderboard::Overall(_)));
}

#[test]
fn replay_delivers_every_event_to_every_lane() {
    let log = vec![comment("A", "Pog", 10), comment("B", "hi", 0)];
    let updates = processor().replay(&log);
    assert_eq!(updates.len(), 10);
    match &updates[1] {
        Update::Metric(m) => {
            assert_eq!(m.metric_name, "bits");
            assert_eq!(m.updates[0].0, "B");
        }
        Update::Metadata(_) => panic!("metric lane expected"),
    }
}

#[test]
fn widest_webp_file_is_chosen() {
    let files = vec![
        (s("1x.webp"), 32),
        (s("4x.avif"), 128),
        (s("3x.webp"), 96),
        (s("2x.png"), 64),
        (s("3x_static.webp"), 96),
    ];
    assert_eq!(largest_webp(&files), Some(4));
    assert_eq!(largest_webp(&vec![(s("a.png"), 1), (s("webp"), 9)]), None);
    assert_eq!(largest_webp(&vec![]), None);
}

#[test]
fn equal_totals_share_a_rank() {
    let e = |id: &str, score: u128| LeaderboardInnerState { id: s(id), username: s(""), avatar: s(""), score };
    let state = LeaderboardState::from_entries(vec![e("A", 5), e("B", 9), e("C", 5), e("D", 1)]).unwrap();
    assert_eq!(state.ranks(), vec![2, 1, 2, 4]);
    assert!(LeaderboardState::new().ranks().is_empty());
}
