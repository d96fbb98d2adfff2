//! The catalogue of animation ideas offered by "Try Random Animation", and
//! how a chosen idea fills the motion form.

use vstd::prelude::*;

verus! {

broadcast use vstd::string::to_string_from_display_ensures_for_str;

/// A ready-made description of an object and how it moves.
#[derive(Debug)]
pub struct AnimationIdea {
    pub object_description: String,
    pub position_description: String,
    pub rotation_description: String,
    pub scale_description: String,
    pub opacity_description: String,
}

/// The texts of an idea, in field order: object, position, rotation,
/// scale, opacity.
pub type IdeaText = (Seq<char>, Seq<char>, Seq<char>, Seq<char>, Seq<char>);

impl View for AnimationIdea {
    type V = IdeaText;

    open spec fn view(&self) -> IdeaText {
        (
            self.object_description@,
            self.position_description@,
            self.rotation_description@,
            self.scale_description@,
            self.opacity_description@,
        )
    }
}

impl AnimationIdea {
    /// A copy of this idea.
    pub fn duplicate(&self) -> (copy: AnimationIdea)
        ensures
            copy@ == self@,
    {
        AnimationIdea {
            object_description: self.object_description.clone(),
            position_description: self.position_description.clone(),
            rotation_description: self.rotation_description.clone(),
            scale_description: self.scale_description.clone(),
            opacity_description: self.opacity_description.clone(),
        }
    }
}

fn idea(object: &str, position: &str, rotation: &str, scale: &str, opacity: &str) -> (i: AnimationIdea)
    ensures
        i@ == (object@, position@, rotation@, scale@, opacity@),
{
    AnimationIdea {
        object_description: object.to_string(),
        position_description: position.to_string(),
        rotation_description: rotation.to_string(),
        scale_description: scale.to_string(),
        opacity_description: opacity.to_string(),
    }
}

/// The thirty ideas, in the order in which they are offered.
pub open spec fn idea_catalogue() -> Seq<IdeaText> {
    seq![
        ("Modern notification bell icon"@, "Gently bobs up and down"@, "Wiggles slightly back and forth"@, "Pulses just a bit larger occasionally"@, "Stays fully visible"@),
        ("Loading spinner with clean design"@, "Remains perfectly centered"@, "Spins smoothly and continuously"@, "Maintains steady size"@, "Fades in smoothly"@),
        ("Check mark icon"@, "Settles into place"@, "No rotation"@, "Grows from small to normal with gentle bounce"@, "Fades in"@),
        ("Smartphone in hand"@, "Floats gently with subtle drift"@, "Slowly tilts to show depth"@, "Stays consistent size"@, "Fully visible with soft presence"@),
        ("Laptop computer open"@, "Hovers with barely noticeable movement"@, "Rotates very slowly on lazy susan"@, "Maintains realistic proportions"@, "Solid and clear"@),
        ("Product feature callout"@, "Drifts in gently"@, "No rotation"@, "Appears with soft growth"@, "Fades in smoothly"@),
        ("Coffee mug on surface"@, "Sits still with tiny natural tremor"@, "No rotation"@, "Stays same size"@, "Fully opaque"@),
        ("Book lying flat"@, "Rests in place"@, "No rotation"@, "Maintains book proportions"@, "Solid visibility"@),
        ("Watch on wrist"@, "Moves with gentle breathing motion"@, "Stays oriented naturally"@, "Consistent watch size"@, "Clear and visible"@),
        ("Cloud icon"@, "Drifts slowly across view"@, "No rotation"@, "Breathes slightly larger and smaller"@, "Semi-transparent like real cloud"@),
        ("Paper airplane"@, "Glides smoothly forward"@, "Banks gently left and right"@, "Stays same size"@, "Fully visible"@),
        ("Balloon with string"@, "Bobs up and down softly"@, "Sways just a little"@, "Maintains balloon size"@, "Bright and opaque"@),
        ("Sneaker on pedestal"@, "Stays perfectly positioned"@, "Turns slowly to show all angles"@, "Maintains shoe proportions"@, "Fully visible"@),
        ("Bottle of perfume"@, "Sits elegantly in place"@, "Rotates gently on display"@, "Stays realistic size"@, "Glass transparency with solid label"@),
        ("Headphones on stand"@, "Rests naturally"@, "Turns slowly to show design"@, "Keeps headphone proportions"@, "Solid and clear"@),
        ("Important text label"@, "Settles into position"@, "No rotation"@, "Pulses subtly to draw attention"@, "Fades in"@),
        ("Arrow pointing to feature"@, "Points steadily at target"@, "No rotation"@, "Stays consistent size"@, "Bright and clear"@),
        ("Highlight circle around object"@, "Stays centered on target"@, "No rotation"@, "Pulses gently larger and smaller"@, "Semi-transparent glow"@),
        ("Coin landing on surface"@, "Drops down and settles"@, "Spins as it falls, then stops"@, "Maintains coin size"@, "Metallic shine, fully visible"@),
        ("Dice after being rolled"@, "Comes to rest naturally"@, "Settles to show final number"@, "Stays dice-sized"@, "Solid white with dark dots"@),
        ("Pen dropping onto desk"@, "Falls and comes to rest"@, "Rolls slightly then stops"@, "Realistic pen proportions"@, "Fully opaque"@),
        ("Heart shape"@, "Stays centered"@, "No rotation"@, "Beats rhythmically like real heart"@, "Warm red, fully visible"@),
        ("Plant in pot"@, "Sways very gently"@, "No rotation"@, "Stays natural plant size"@, "Green and vibrant"@),
        ("Candle flame"@, "Flickers up and down subtly"@, "No rotation"@, "Dances between small and normal"@, "Bright orange glow"@),
        ("Router with blinking lights"@, "Sits stationary"@, "No rotation"@, "Maintains router size"@, "Lights pulse on and off"@),
        ("Charging cable connected"@, "Lies naturally in place"@, "No rotation"@, "Keeps cable proportions"@, "Fully visible"@),
        ("Smart speaker cylinder"@, "Sits perfectly still"@, "No rotation"@, "Pulses very slightly when active"@, "Solid with subtle LED ring"@),
        ("Sphere floating in space"@, "Hovers with gentle drift"@, "Spins slowly on axis"@, "Breathes subtly larger and smaller"@, "Semi-transparent with inner glow"@),
        ("Cube sitting on surface"@, "Rests solidly in place"@, "No rotation"@, "Maintains cube proportions"@, "Solid color, fully opaque"@),
        ("Ring spinning in air"@, "Floats steadily"@, "Rotates smoothly around center"@, "Stays same ring size"@, "Metallic finish, fully visible"@),
    ]
}

/// Every idea of the catalogue, in catalogue order.
pub fn get_animation_ideas() -> (ideas: Vec<AnimationIdea>)
    ensures
        ideas@.len() == idea_catalogue().len(),
        forall|i: int| 0 <= i < ideas@.len() ==> #[trigger] ideas@[i]@ == idea_catalogue()[i],
{
    let mut ideas: Vec<AnimationIdea> = Vec::new();
    ideas.push(idea("Modern notification bell icon", "Gently bobs up and down", "Wiggles slightly back and forth", "Pulses just a bit larger occasionally", "Stays fully visible"));
    ideas.push(idea("Loading spinner with clean design", "Remains perfectly centered", "Spins smoothly and continuously", "Maintains steady size", "Fades in smoothly"));
    ideas.push(idea("Check mark icon", "Settles into place", "No rotation", "Grows from small to normal with gentle bounce", "Fades in"));
    ideas.push(idea("Smartphone in hand", "Floats gently with subtle drift", "Slowly tilts to show depth", "Stays consistent size", "Fully visible with soft presence"));
    ideas.push(idea("Laptop computer open", "Hovers with barely noticeable movement", "Rotates very slowly on lazy susan", "Maintains realistic proportions", "Solid and clear"));
    ideas.push(idea("Product feature callout", "Drifts in gently", "No rotation", "Appears with soft growth", "Fades in smoothly"));
    ideas.push(idea("Coffee mug on surface", "Sits still with tiny natural tremor", "No rotation", "Stays same size", "Fully opaque"));
    ideas.push(idea("Book lying flat", "Rests in place", "No rotation", "Maintains book proportions", "Solid visibility"));
    ideas.push(idea("Watch on wrist", "Moves with gentle breathing motion", "Stays oriented naturally", "Consistent watch size", "Clear and visible"));
    ideas.push(idea("Cloud icon", "Drifts slowly across view", "No rotation", "Breathes slightly larger and smaller", "Semi-transparent like real cloud"));
    ideas.push(idea("Paper airplane", "Glides smoothly forward", "Banks gently left and right", "Stays same size", "Fully visible"));
    ideas.push(idea("Balloon with string", "Bobs up and down softly", "Sways just a little", "Maintains balloon size", "Bright and opaque"));
    ideas.push(idea("Sneaker on pedestal", "Stays perfectly positioned", "Turns slowly to show all angles", "Maintains shoe proportions", "Fully visible"));
    ideas.push(idea("Bottle of perfume", "Sits elegantly in place", "Rotates gently on display", "Stays realistic size", "Glass transparency with solid label"));
    ideas.push(idea("Headphones on stand", "Rests naturally", "Turns slowly to show design", "Keeps headphone proportions", "Solid and clear"));
    ideas.push(idea("Important text label", "Settles into position", "No rotation", "Pulses subtly to draw attention", "Fades in"));
    ideas.push(idea("Arrow pointing to feature", "Points steadily at target", "No rotation", "Stays consistent size", "Bright and clear"));
    ideas.push(idea("Highlight circle around object", "Stays centered on target", "No rotation", "Pulses gently larger and smaller", "Semi-transparent glow"));
    ideas.push(idea("Coin landing on surface", "Drops down and settles", "Spins as it falls, then stops", "Maintains coin size", "Metallic shine, fully visible"));
    ideas.push(idea("Dice after being rolled", "Comes to rest naturally", "Settles to show final number", "Stays dice-sized", "Solid white with dark dots"));
    ideas.push(idea("Pen dropping onto desk", "Falls and comes to rest", "Rolls slightly then stops", "Realistic pen proportions", "Fully opaque"));
    ideas.push(idea("Heart shape", "Stays centered", "No rotation", "Beats rhythmically like real heart", "Warm red, fully visible"));
    ideas.push(idea("Plant in pot", "Sways very gently", "No rotation", "Stays natural plant size", "Green and vibrant"));
    ideas.push(idea("Candle flame", "Flickers up and down subtly", "No rotation", "Dances between small and normal", "Bright orange glow"));
    ideas.push(idea("Router with blinking lights", "Sits stationary", "No rotation", "Maintains router size", "Lights pulse on and off"));
    ideas.push(idea("Charging cable connected", "Lies naturally in place", "No rotation", "Keeps cable proportions", "Fully visible"));
    ideas.push(idea("Smart speaker cylinder", "Sits perfectly still", "No rotation", "Pulses very slightly when active", "Solid with subtle LED ring"));
    ideas.push(idea("Sphere floating in space", "Hovers with gentle drift", "Spins slowly on axis", "Breathes subtly larger and smaller", "Semi-transparent with inner glow"));
    ideas.push(idea("Cube sitting on surface", "Rests solidly in place", "No rotation", "Maintains cube proportions", "Solid color, fully opaque"));
    ideas.push(idea("Ring spinning in air", "Floats steadily", "Rotates smoothly around center", "Stays same ring size", "Metallic finish, fully visible"));
    assert(ideas@.map_values(|i: AnimationIdea| i@) =~= idea_catalogue());
    proof {
        assert forall|i: int| 0 <= i < ideas@.len() implies #[trigger] ideas@[i]@ == idea_catalogue()[i] by {
            assert(ideas@.map_values(|i: AnimationIdea| i@)[i] == ideas@[i]@);
        }
    }
    ideas
}

/// Calls `rand::random::<usize>()` (thread-local generator). The contract
/// claims nothing of the value: any `usize` may come back.
#[verifier::external_body]
fn random_usize() -> (r: usize) {
    rand::random::<usize>()
}

/// The idea at position `random % ideas.len()`, or `None` when there is none.
pub fn pick_idea(ideas: &Vec<AnimationIdea>, random: usize) -> (picked: Option<AnimationIdea>)
    ensures
        ideas@.len() == 0 ==> picked is None,
        ideas@.len() > 0 ==> picked is Some && picked->0@ == ideas@[(random as int) % (ideas@.len() as int)]@,
{
    if ideas.len() == 0 {
        None
    } else {
        let index = random % ideas.len();
        Some(ideas[index].duplicate())
    }
}

/// The texts of the motion form.
pub struct MotionForm {
    pub description: String,
    pub position: String,
    pub scale: String,
    pub opacity: String,
    pub rotation: String,
    pub duration: String,
    pub delay: String,
}

impl MotionForm {
    /// A form with every field empty.
    pub fn new() -> (form: MotionForm)
        ensures
            form.description@.len() == 0,
            form.position@.len() == 0,
            form.scale@.len() == 0,
            form.opacity@.len() == 0,
            form.rotation@.len() == 0,
            form.duration@.len() == 0,
            form.delay@.len() == 0,
    {
        MotionForm {
            description: String::new(),
            position: String::new(),
            scale: String::new(),
            opacity: String::new(),
            rotation: String::new(),
            duration: String::new(),
            delay: String::new(),
        }
    }

    /// Whether the description, position, scale, opacity and rotation fields
    /// hold the texts of `idea`.
    pub open spec fn shows_idea(&self, idea: IdeaText) -> bool {
        &&& self.description@ == idea.0
        &&& self.position@ == idea.1
        &&& self.rotation@ == idea.2
        &&& self.scale@ == idea.3
        &&& self.opacity@ == idea.4
    }

    /// Copies an idea into the form; duration and delay stay as they were.
    pub fn apply_idea(&mut self, idea: &AnimationIdea)
        ensures
            final(self).shows_idea(idea@),
            final(self).duration@ == old(self).duration@,
            final(self).delay@ == old(self).delay@,
    {
        self.description = idea.object_description.clone();
        self.position = idea.position_description.clone();
        self.scale = idea.scale_description.clone();
        self.opacity = idea.opacity_description.clone();
        self.rotation = idea.rotation_description.clone();
    }

    /// "Try Random Animation": fills the form with an idea of the catalogue
    /// chosen at random; duration and delay stay as they were.
    pub fn try_random_animation(&mut self)
        ensures
            exists|i: int| 0 <= i < idea_catalogue().len() && final(self).shows_idea(idea_catalogue()[i]),
            final(self).duration@ == old(self).duration@,
            final(self).delay@ == old(self).delay@,
    {
        let ideas = get_animation_ideas();
        let random = random_usize();
        let picked = pick_idea(&ideas, random);
        assert(ideas@.len() == 30) by {
            assert(idea_catalogue().len() == 30);
        }
        match picked {
            Some(chosen) => {
                let ghost i = (random as int) % (ideas@.len() as int);
                self.apply_idea(&chosen);
                assert(self.shows_idea(idea_catalogue()[i]));
            },
            None => {},
        }
    }
}

} // verus!
