use matrix_openai_bot::openai::store::ConversationStore;

fn ids(list: &[&str]) -> Vec<String> {
    list.iter().map(|id| id.to_string()).collect()
}

#[test]
fn unseen_identity_has_no_anchors() {
    let mut store = ConversationStore::new();
    assert_eq!(store.get_or_create("@bot:x", "!room:x"), Vec::<String>::new());
    assert_eq!(store.get_or_create("@bot:x", "!room:x"), Vec::<String>::new());
}

#[test]
fn appends_accumulate_in_order() {
    let mut store = ConversationStore::new();
    store.insert_events("@bot:x", "!room:x", ids(&["a", "b"]));
    store.insert_events("@bot:x", "!room:x", ids(&["c", "d"]));
    assert_eq!(store.get_or_create("@bot:x", "!room:x"), ids(&["a", "b", "c", "d"]));
}

#[test]
fn lookup_changes_nothing() {
    let mut store = ConversationStore::new();
    store.insert_events("@bot:x", "!room:x", ids(&["a", "b"]));
    assert_eq!(store.get_or_create("@bot:x", "!room:x"), ids(&["a", "b"]));
    assert_eq!(store.get_or_create("@bot:x", "!room:x"), ids(&["a", "b"]));
    store.insert_events("@bot:x", "!room:x", ids(&["c"]));
    assert_eq!(store.get_or_create("@bot:x", "!room:x"), ids(&["a", "b", "c"]));
}

#[test]
fn clear_empties_the_list_and_may_be_repeated() {
    let mut store = ConversationStore::new();
    store.insert_events("@bot:x", "!room:x", ids(&["a", "b"]));
    store.clear("@bot:x", "!room:x");
    assert_eq!(store.get_or_create("@bot:x", "!room:x"), Vec::<String>::new());
    store.clear("@bot:x", "!room:x");
    assert_eq!(store.get_or_create("@bot:x", "!room:x"), Vec::<String>::new());
    store.insert_events("@bot:x", "!room:x", ids(&["c"]));
    assert_eq!(store.get_or_create("@bot:x", "!room:x"), ids(&["c"]));
}

#[test]
fn clear_of_an_unseen_identity_creates_it_empty() {
    let mut store = ConversationStore::new();
    store.clear("@bot:x", "!room:x");
    assert_eq!(store.get_or_create("@bot:x", "!room:x"), Vec::<String>::new());
}

#[test]
fn set_replaces_the_list() {
    let mut store = ConversationStore::new();
    store.insert_events("@bot:x", "!room:x", ids(&["a", "b"]));
    store.set("@bot:x", "!room:x", ids(&["z"]));
    assert_eq!(store.get_or_create("@bot:x", "!room:x"), ids(&["z"]));
    store.set("@bot:x", "!other:x", ids(&["y", "y"]));
    assert_eq!(store.get_or_create("@bot:x", "!other:x"), ids(&["y", "y"]));
}

#[test]
fn identities_do_not_touch_one_another() {
    let mut store = ConversationStore::new();
    store.insert_events("@bot:x", "!one:x", ids(&["a"]));
    store.insert_events("@bot:x", "!two:x", ids(&["b"]));
    store.insert_events("@other:x", "!one:x", ids(&["c"]));
    store.clear("@bot:x", "!two:x");
    store.set("@other:x", "!two:x", ids(&["d"]));
    assert_eq!(store.get_or_create("@bot:x", "!one:x"), ids(&["a"]));
    assert_eq!(store.get_or_create("@bot:x", "!two:x"), Vec::<String>::new());
    assert_eq!(store.get_or_create("@other:x", "!one:x"), ids(&["c"]));
    assert_eq!(store.get_or_create("@other:x", "!two:x"), ids(&["d"]));
}

#[test]
fn identity_is_the_pair_not_its_concatenation() {
    let mut store = ConversationStore::new();
    store.insert_events("ab", "c", ids(&["1"]));
    store.insert_events("a", "bc", ids(&["2"]));
    assert_eq!(store.get_or_create("ab", "c"), ids(&["1"]));
    assert_eq!(store.get_or_create("a", "bc"), ids(&["2"]));
}
