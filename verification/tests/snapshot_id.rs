use xraft_server::types::{canonical_snapshot_id, LogIndex, Term};

#[test]
fn canonical_snapshot_id_pads_term_and_index() {
    assert_eq!(
        canonical_snapshot_id(Term(5), LogIndex(50)),
        "snapshot-0000000005-00000000000000000050"
    );
}
