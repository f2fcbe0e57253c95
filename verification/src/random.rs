//! Drawing a piece kind at random.

use crate::piece::Tetromino;
use rand::rngs::ThreadRng;
use rand::seq::SliceRandom;
use vstd::prelude::*;

verus! {

/// `rand::rngs::ThreadRng`, the generator that each thread has. Nothing is
/// known of what it holds.
#[verifier::external_type_specification]
#[verifier::external_body]
pub struct ExThreadRng(ThreadRng);

/// `rand::thread_rng`: hands out the calling thread's generator. Nothing is
/// claimed of it.
pub assume_specification[ rand::thread_rng ]() -> (rng: ThreadRng);

/// `SliceRandom::choose` on a slice of bytes: none for an empty slice, else a
/// reference to one of the slice's elements. Which one is up to the
/// generator.
#[verifier::external_body]
fn choose_face<'a>(faces: &'a [u8], rng: &mut ThreadRng) -> (face: Option<&'a u8>)
    ensures
        faces@.len() == 0 ==> face is None,
        faces@.len() > 0 ==> face is Some && faces@.contains(*face.unwrap()),
{
    faces.choose(rng)
}

/// `rand::random` for `bool`: either value may come back.
#[verifier::external_body]
fn random_bool() -> (flag: bool) {
    rand::random()
}

/// The kind that a roll selects: 0 the straight piece, 1 the square, 2 the T,
/// 3 an L and 4 a Z, the last two in the orientation given.
pub open spec fn kind_for(dice: int, oriented: bool) -> Tetromino {
    if dice == 0 {
        Tetromino::Straight
    } else if dice == 1 {
        Tetromino::Square
    } else if dice == 2 {
        Tetromino::T
    } else if dice == 3 {
        Tetromino::L(oriented)
    } else {
        Tetromino::Z(oriented)
    }
}

/// The kind for a roll of 0 to 4 and an orientation flag.
pub fn tetromino_for(dice: u8, oriented: bool) -> (kind: Tetromino)
    requires
        dice < 5,
    ensures
        kind == kind_for(dice as int, oriented),
{
    if dice == 0 {
        Tetromino::Straight
    } else if dice == 1 {
        Tetromino::Square
    } else if dice == 2 {
        Tetromino::T
    } else if dice == 3 {
        Tetromino::L(oriented)
    } else {
        Tetromino::Z(oriented)
    }
}

/// A kind drawn at random: a roll among five faces picks the kind, and a flag
/// drawn apart from it picks the orientation of an L or a Z. Any kind may
/// come back, so nothing is promised of the result.
pub fn get_random_tetromino() -> (kind: Tetromino) {
    let mut rng = rand::thread_rng();
    let faces: [u8; 5] = [0, 1, 2, 3, 4];
    let picked = choose_face(faces.as_slice(), &mut rng);
    let dice: u8 = *picked.unwrap();
    assert(dice < 5) by {
        let i = choose|i: int| 0 <= i < faces@.len() && faces@[i] == dice;
        assert(faces@[i] == dice);
    }
    let oriented = random_bool();
    tetromino_for(dice, oriented)
}

} // verus!
