//! Cards and decks, and the rows under which the store keeps a card.

use vstd::prelude::*;

verus! {

/// One challenge: the sandbox it runs in (read-only mounts as host and
/// container paths, image, optional command and working directory), the
/// output that signals success, and the canonical input shown afterwards.
#[derive(Debug, Clone)]
pub struct Card {
    pub id: i64,
    pub volume_mounts: Vec<(String, String)>,
    pub expected_output: String,
    pub expected_input: String,
    pub command: Option<String>,
    pub docker_image: String,
    pub work_dir: Option<String>,
}

/// A named deck of cards.
#[derive(Debug, Clone)]
pub struct Deck {
    pub name: String,
    pub description: String,
    pub cards: Vec<Card>,
}

/// The mount pairs as text.
pub open spec fn mounts_view(m: Seq<(String, String)>) -> Seq<(Seq<char>, Seq<char>)> {
    m.map_values(|p: (String, String)| (p.0@, p.1@))
}

/// The mount pairs that a JSON text decodes to, if it decodes.
pub uninterp spec fn mounts_of_json(s: Seq<char>) -> Option<Seq<(Seq<char>, Seq<char>)>>;

/// The JSON text of a list of mount pairs.
pub uninterp spec fn json_of_mounts(m: Seq<(Seq<char>, Seq<char>)>) -> Seq<char>;

/// Relies on `serde_json::from_str` for `Vec<(String, String)>`: it decodes a
/// JSON array of two-string arrays, and what comes out depends on the text
/// alone.
#[verifier::external_body]
fn decode_mounts(s: &str) -> (r: Option<Vec<(String, String)>>)
    ensures
        r.is_some() == mounts_of_json(s@).is_some(),
        r matches Some(v) ==> mounts_view(v@) == mounts_of_json(s@).unwrap(),
{
    serde_json::from_str(s).ok()
}

/// Relies on `serde_json::to_string` for `Vec<(String, String)>`: the JSON
/// text it produces depends on the pairs alone; writing strings and tuples
/// into memory never fails; and `serde_json::from_str` reads the pairs back
/// from that text.
#[verifier::external_body]
fn encode_mounts(m: &Vec<(String, String)>) -> (r: Option<String>)
    ensures
        r is Some,
        r matches Some(j) ==> j@ == json_of_mounts(mounts_view(m@)),
        r matches Some(j) ==> mounts_of_json(j@) == Some(mounts_view(m@)),
{
    serde_json::to_string(m).ok()
}

/// A card as the store keeps it: its place `ord` in the deck, and the mount
/// pairs as JSON text.
#[derive(Debug, Clone)]
pub struct CardRow {
    pub id: i64,
    pub ord: i64,
    pub expected_output: String,
    pub expected_input: String,
    pub command: Option<String>,
    pub docker_image: String,
    pub work_dir: Option<String>,
    pub volume_mounts: String,
}

impl CardRow {
    /// The row of `card`, at place `ord` of its deck.
    pub fn from_card(card: Card, ord: i64) -> (row: CardRow)
        ensures
            row.id == card.id,
            row.ord == ord,
            row.expected_output == card.expected_output,
            row.expected_input == card.expected_input,
            row.command == card.command,
            row.docker_image == card.docker_image,
            row.work_dir == card.work_dir,
            row.volume_mounts@ == json_of_mounts(mounts_view(card.volume_mounts@)),
            mounts_of_json(row.volume_mounts@) == Some(mounts_view(card.volume_mounts@)),
    {
        let json = match encode_mounts(&card.volume_mounts) {
            Some(j) => j,
            None => String::new(),
        };
        CardRow {
            id: card.id,
            ord,
            expected_output: card.expected_output,
            expected_input: card.expected_input,
            command: card.command,
            docker_image: card.docker_image,
            work_dir: card.work_dir,
            volume_mounts: json,
        }
    }

    /// The card that this row holds; `None` where its mount text is not valid.
    pub fn into_card(self) -> (r: Option<Card>)
        ensures
            r.is_some() == mounts_of_json(self.volume_mounts@).is_some(),
            r matches Some(card) ==> {
                &&& card.id == self.id
                &&& card.expected_output == self.expected_output
                &&& card.expected_input == self.expected_input
                &&& card.command == self.command
                &&& card.docker_image == self.docker_image
                &&& card.work_dir == self.work_dir
                &&& mounts_view(card.volume_mounts@) == mounts_of_json(self.volume_mounts@).unwrap()
            },
    {
        match decode_mounts(self.volume_mounts.as_str()) {
            Some(mounts) => Some(
                Card {
                    id: self.id,
                    volume_mounts: mounts,
                    expected_output: self.expected_output,
                    expected_input: self.expected_input,
                    command: self.command,
                    docker_image: self.docker_image,
                    work_dir: self.work_dir,
                },
            ),
            None => None,
        }
    }

    /// The card that this row holds, with no mounts where its mount text is
    /// not valid.
    pub fn into_card_lenient(self) -> (card: Card)
        ensures
            card.id == self.id,
            card.expected_output == self.expected_output,
            card.expected_input == self.expected_input,
            card.command == self.command,
            card.docker_image == self.docker_image,
            card.work_dir == self.work_dir,
            mounts_view(card.volume_mounts@) == match mounts_of_json(self.volume_mounts@) {
                Some(m) => m,
                None => Seq::empty(),
            },
    {
        let mounts = match decode_mounts(self.volume_mounts.as_str()) {
            Some(m) => m,
            None => {
                let empty: Vec<(String, String)> = Vec::new();
                assert(mounts_view(empty@) =~= Seq::empty());
                empty
            },
        };
        Card {
            id: self.id,
            volume_mounts: mounts,
            expected_output: self.expected_output,
            expected_input: self.expected_input,
            command: self.command,
            docker_image: self.docker_image,
            work_dir: self.work_dir,
        }
    }
}

} // verus!
