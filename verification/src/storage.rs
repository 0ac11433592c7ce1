//! The statements of the encrypted local ledger: the batch that keys the
//! database and creates its tables, and the statements that read and write
//! it. The database itself is opened and driven outside the library.
use vstd::prelude::*;

verus! {

/// The text of the initial batch before the passphrase.
pub const INIT_BATCH_HEAD: &'static str = "
            PRAGMA key = '";

/// The text of the initial batch after the passphrase: the two tables.
pub const INIT_BATCH_TAIL: &'static str = "';
            
            CREATE TABLE IF NOT EXISTS handshakes (
                id INTEGER PRIMARY KEY,
                peer_key BLOB NOT NULL,
                received_at DATETIME DEFAULT CURRENT_TIMESTAMP
            );
            
            CREATE TABLE IF NOT EXISTS local_config (
                key TEXT PRIMARY KEY,
                value BLOB NOT NULL
            );
        ";

/// Records a peer key in the handshake log.
pub const LOG_HANDSHAKE_SQL: &'static str = "INSERT INTO handshakes (peer_key) VALUES (?1)";

/// Reads the stored identity secret.
pub const GET_IDENTITY_SQL: &'static str = "SELECT value FROM local_config WHERE key = 'identity_sk'";

/// Stores the identity secret, replacing any earlier one.
pub const SET_IDENTITY_SQL: &'static str = "INSERT OR REPLACE INTO local_config (key, value) VALUES ('identity_sk', ?1)";

/// The passphrase stands in the batch verbatim, right after the head and
/// right before the tail: the batch's characters from the head's length on,
/// as many as the passphrase has, are the passphrase's characters, and two
/// passphrases that differ in any character (letter case too) give
/// different batches.
pub proof fn law_batch_holds_passphrase_verbatim(p: Seq<char>, q: Seq<char>)
    ensures
        init_batch_text(p).subrange(
            INIT_BATCH_HEAD@.len() as int,
            (INIT_BATCH_HEAD@.len() + p.len()) as int,
        ) == p,
        init_batch_text(p).len() == INIT_BATCH_HEAD@.len() + p.len() + INIT_BATCH_TAIL@.len(),
        p != q ==> init_batch_text(p) != init_batch_text(q),
{
    let h = INIT_BATCH_HEAD@;
    assert(init_batch_text(p).subrange(h.len() as int, (h.len() + p.len()) as int) =~= p);
    if p != q && init_batch_text(p) == init_batch_text(q) {
        assert(init_batch_text(p).len() == h.len() + p.len() + INIT_BATCH_TAIL@.len());
        assert(init_batch_text(q).len() == h.len() + q.len() + INIT_BATCH_TAIL@.len());
        assert(p.len() == q.len());
        assert(init_batch_text(q).subrange(h.len() as int, (h.len() + q.len()) as int) =~= q);
    }
}

/// The initial batch for `passphrase`: the passphrase stands between the
/// head and the tail exactly as given.
pub open spec fn init_batch_text(passphrase: Seq<char>) -> Seq<char> {
    INIT_BATCH_HEAD@ + passphrase + INIT_BATCH_TAIL@
}

/// The batch that keys the database with `passphrase` and creates the
/// tables that do not exist yet.
pub fn init_batch(passphrase: &str) -> (batch: String)
    ensures
        batch@ == init_batch_text(passphrase@),
        batch@ == INIT_BATCH_HEAD@ + passphrase@ + INIT_BATCH_TAIL@,
{
    let mut batch = String::from_str(INIT_BATCH_HEAD);
    batch.append(passphrase);
    batch.append(INIT_BATCH_TAIL);
    batch
}

} // verus!
