//! The fixed catalog of training exercises. Each exercise succeeds with its
//! own rate, held as a whole percentage strictly between 0 and 100.

use vstd::prelude::*;
use crate::commander::generate_random_change;

verus! {

/// One training exercise: what the user attempts, and how often it works.
#[derive(Clone, Debug)]
pub struct TrainingExercise {
    pub description: String,
    pub success_percent: u8,
}

impl TrainingExercise {
    /// The success rate lies strictly between never and always.
    pub open spec fn wf(self) -> bool {
        0 < self.success_percent < 100
    }
}

/// The success percentages of the catalog, in catalog order.
pub open spec fn spec_training_percents() -> Seq<int> {
    seq![60int, 70int, 50int, 80int, 40int]
}

/// The description of the catalog's `i`-th exercise, in catalog order.
pub open spec fn spec_catalog_description(i: int) -> Seq<char> {
    if i == 0 {
        "Ты пытаешься поднять ведро воды своим писюном 🪣"@
    } else if i == 1 {
        "Ты решил потягать гантели, привязав их к своему писюну 🏋️"@
    } else if i == 2 {
        "Ты пытаешься открыть бутылку пива своим писюном 🍺"@
    } else if i == 3 {
        "Ты решил посетить йогу для писюнов 🧘"@
    } else {
        "Ты пытаешься набрать текст на клавиатуре своим писюном 💻"@
    }
}

/// Whether `e` is one of the five catalog entries, description and rate
/// together.
pub open spec fn is_catalog_exercise(e: TrainingExercise) -> bool {
    exists|i: int|
        0 <= i < spec_training_percents().len() && e.description@ == spec_catalog_description(i)
            && e.success_percent as int == spec_training_percents()[i]
}

/// The catalog of exercises the training command draws from.
pub fn get_training_exercises() -> (r: Vec<TrainingExercise>)
    ensures
        r@.len() == spec_training_percents().len(),
        forall|i: int|
            0 <= i < r@.len() ==> (#[trigger] r@[i]).success_percent as int
                == spec_training_percents()[i],
        forall|i: int|
            0 <= i < r@.len() ==> (#[trigger] r@[i]).description@ == spec_catalog_description(i),
        forall|i: int| 0 <= i < r@.len() ==> (#[trigger] r@[i]).wf(),
{
    let mut v: Vec<TrainingExercise> = Vec::new();
    v.push(TrainingExercise {
        description: "Ты пытаешься поднять ведро воды своим писюном 🪣".to_owned(),
        success_percent: 60,
    });
    v.push(TrainingExercise {
        description: "Ты решил потягать гантели, привязав их к своему писюну 🏋️".to_owned(),
        success_percent: 70,
    });
    v.push(TrainingExercise {
        description: "Ты пытаешься открыть бутылку пива своим писюном 🍺".to_owned(),
        success_percent: 50,
    });
    v.push(TrainingExercise {
        description: "Ты решил посетить йогу для писюнов 🧘".to_owned(),
        success_percent: 80,
    });
    v.push(TrainingExercise {
        description: "Ты пытаешься набрать текст на клавиатуре своим писюном 💻".to_owned(),
        success_percent: 40,
    });
    assert(v@.map_values(|e: TrainingExercise| e.success_percent as int)
        =~= spec_training_percents());
    v
}

/// Draws one exercise uniformly from the catalog — the returned exercise is
/// one of the five catalog entries, description and rate together — and
/// rolls its success: a draw over 100 equally likely outcomes succeeds when
/// it falls below the exercise's percentage.
pub fn generate_training_exercise() -> (r: (TrainingExercise, bool))
    ensures
        r.0.wf(),
        is_catalog_exercise(r.0),
{
    let mut exercises = get_training_exercises();
    let idx = generate_random_change(0, (exercises.len() - 1) as i32);
    let exercise = exercises.remove(idx as usize);
    proof {
        assert(exercise.description@ == spec_catalog_description(idx as int)
            && exercise.success_percent as int == spec_training_percents()[idx as int]);
    }
    let draw = generate_random_change(0, 99);
    let success = draw < exercise.success_percent as i32;
    (exercise, success)
}

} // verus!
