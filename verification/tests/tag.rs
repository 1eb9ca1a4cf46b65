use brot::meta::Meta;
use brot::note::NoteMeta;
use brot::pattern::Patterns;
use brot::tag::{
    construct_all_tags, extract_tag_units, insert_tag_parts, tags_from_meta, tags_from_paths,
    TagNode,
};

fn shape(nodes: &[TagNode]) -> String {
    nodes
        .iter()
        .map(|n| {
            if n.children.is_empty() {
                n.name.clone()
            } else {
                format!("{}({})", n.name, shape(&n.children))
            }
        })
        .collect::<Vec<_>>()
        .join(",")
}

fn strings(v: &[&str]) -> Vec<String> {
    v.iter().map(|s| s.to_string()).collect()
}

#[test]
fn extract_tag_units_splits_words_at_runs_of_dashes() {
    let patterns = Patterns::new().unwrap();
    let units =
        extract_tag_units("-hello--there_my_name_-is_-joe--dan-iel--john.md", &patterns);
    assert_eq!(
        units,
        vec![strings(&["hello", "there"]), strings(&["is"]), strings(&["joe", "dan-iel", "john"])]
    );
}

#[test]
fn extract_tag_units_of_a_title_without_tags_is_empty() {
    let patterns = Patterns::new().unwrap();
    assert!(extract_tag_units("plain_note.md", &patterns).is_empty());
    assert!(extract_tag_units("mid-dash_note.md", &patterns).is_empty());
    assert!(extract_tag_units("", &patterns).is_empty());
}

#[test]
fn extract_tag_units_takes_longer_runs_as_one_separator() {
    let patterns = Patterns::new().unwrap();
    assert_eq!(extract_tag_units("---a----b.md", &patterns), vec![strings(&["a", "b"])]);
    assert_eq!(extract_tag_units("-.md", &patterns), vec![strings(&[""])]);
}

#[test]
fn insert_tag_parts_reuses_nodes_by_name() {
    let mut nodes: Vec<TagNode> = Vec::new();
    insert_tag_parts(&strings(&["work", "urgent"]), &mut nodes);
    insert_tag_parts(&strings(&["home"]), &mut nodes);
    insert_tag_parts(&strings(&["work", "later"]), &mut nodes);
    insert_tag_parts(&strings(&["work", "urgent", "today"]), &mut nodes);
    insert_tag_parts(&strings(&[]), &mut nodes);
    assert_eq!(shape(&nodes), "work(urgent(today),later),home");
}

#[test]
fn tag_index_of_two_notes_under_one_root() {
    let patterns = Patterns::new().unwrap();
    let paths = strings(&["-work--urgent_task.md", "-work--later_task.md"]);
    let nodes = tags_from_paths(&paths, &patterns);
    assert_eq!(nodes.len(), 1);
    assert_eq!(nodes[0].name, "work");
    let children: Vec<&str> = nodes[0].children.iter().map(|c| c.name.as_str()).collect();
    assert_eq!(children, vec!["urgent", "later"]);
    assert_eq!(construct_all_tags(&nodes), vec!["-work", "-work--urgent", "-work--later"]);
}

#[test]
fn a_single_dash_does_not_separate_levels() {
    let patterns = Patterns::new().unwrap();
    let paths = strings(&["-work-urgent_task.md", "-work-later_task.md"]);
    let nodes = tags_from_paths(&paths, &patterns);
    assert_eq!(shape(&nodes), "work-urgent,work-later");
    assert_eq!(construct_all_tags(&nodes), vec!["-work-urgent", "-work-later"]);
}

#[test]
fn tag_index_has_the_same_tags_in_any_order_of_the_notes() {
    let patterns = Patterns::new().unwrap();
    let forward = strings(&["-a--b_x.md", "-c_y.md", "-a--d_z.md"]);
    let backward = strings(&["-a--d_z.md", "-c_y.md", "-a--b_x.md"]);
    let mut one = construct_all_tags(&tags_from_paths(&forward, &patterns));
    let mut two = construct_all_tags(&tags_from_paths(&backward, &patterns));
    assert_eq!(one, vec!["-a", "-a--b", "-a--d", "-c"]);
    one.sort();
    two.sort();
    assert_eq!(one, two);
}

#[test]
fn construct_all_tags_walks_depth_first() {
    let mut nodes: Vec<TagNode> = Vec::new();
    insert_tag_parts(&strings(&["a", "b", "c"]), &mut nodes);
    insert_tag_parts(&strings(&["a", "d"]), &mut nodes);
    insert_tag_parts(&strings(&["e"]), &mut nodes);
    assert_eq!(
        construct_all_tags(&nodes),
        vec!["-a", "-a--b", "-a--b--c", "-a--d", "-e"]
    );
    assert!(construct_all_tags(&[]).is_empty());
}

#[test]
fn tags_from_meta_reads_the_note_paths() {
    let patterns = Patterns::new().unwrap();
    let mut meta = Meta::default();
    meta.notes.insert("-x--y_one.md".to_string(), NoteMeta::default());
    meta.notes.insert("plain.md".to_string(), NoteMeta::default());
    meta.notes.insert("two_-x_-z.md".to_string(), NoteMeta::default());
    assert_eq!(shape(&tags_from_meta(&meta, &patterns)), "x(y),z");
}

#[test]
fn tag_node_new_has_no_children() {
    let node = TagNode::new("work".to_string());
    assert_eq!(node.name, "work");
    assert!(node.children.is_empty());
}
