//! Mochi, the companion cat: its moods, its sprites and the rules by which
//! system load moves it from one mood to another.
use vstd::prelude::*;

verus! {

/// The mood of the companion.
#[derive(Debug, Clone, Copy, PartialEq, Eq, Structural)]
pub enum PetMood {
    Sleeping,
    Happy,
    Busy,
    HighCpu,
    Hot,
    Concerned,
    Excited,
    Network,
}

pub open spec fn mood_label(m: PetMood) -> Seq<char> {
    match m {
        PetMood::Sleeping => "Sleeping"@,
        PetMood::Happy => "Happy"@,
        PetMood::Busy => "Busy"@,
        PetMood::HighCpu => "Overclocked!"@,
        PetMood::Hot => "Toasty!"@,
        PetMood::Concerned => "Memory Pressure"@,
        PetMood::Excited => "GPU Roaring"@,
        PetMood::Network => "Surfing Web"@,
    }
}

impl PetMood {
    /// Caption shown under the sprite.
    pub fn label(self) -> (s: &'static str)
        ensures
            s@ == mood_label(self),
    {
        match self {
            PetMood::Sleeping => "Sleeping",
            PetMood::Happy => "Happy",
            PetMood::Busy => "Busy",
            PetMood::HighCpu => "Overclocked!",
            PetMood::Hot => "Toasty!",
            PetMood::Concerned => "Memory Pressure",
            PetMood::Excited => "GPU Roaring",
            PetMood::Network => "Surfing Web",
        }
    }
}

/// The three lines of the cat's picture for a mood; a blinking cat that is
/// awake shows closed eyes.
pub open spec fn cat_sprite(mood: PetMood, is_blinking: bool) -> Seq<Seq<char>> {
    if is_blinking && mood != PetMood::Sleeping {
        seq![" /\\_/\\ "@, "( -.- )"@, " > ^ < "@]
    } else {
        match mood {
            PetMood::Sleeping => seq![" /\\_/\\ "@, "( -.- ) zZ"@, " /   \\ "@],
            PetMood::Happy => seq![" /\\_/\\ "@, "( \u{2022}.\u{2022} )"@, " > ^ < "@],
            PetMood::Busy => seq![" /\\_/\\ "@, "( o.o )"@, " /| |\\ "@],
            PetMood::HighCpu => seq![" /\\_/\\ "@, "( O.O ) !"@, " /|!|\\ "@],
            PetMood::Hot => seq![" /\\_/\\ "@, "( x.x ) \u{1F525}"@, " /| |\\ "@],
            PetMood::Concerned => seq![" /\\_/\\ "@, "( ;.; ) \u{1F4A6}"@, " > ^ < "@],
            PetMood::Excited => seq![" /\\_/\\ "@, "( ^.^ ) \u{2728}"@, " /| |\\ "@],
            PetMood::Network => seq![" /\\_/\\ "@, "( \u{2022}\u{1D17}\u{2022} ) \u{26A1}"@, " /| |\\ "@],
        }
    }
}

/// Returns the lines of ASCII art for the mood and blink state.
pub fn get_cat_sprite(mood: PetMood, is_blinking: bool) -> (r: [&'static str; 3])
    ensures
        r@.len() == 3,
        forall|i: int| 0 <= i < 3 ==> (#[trigger] r@[i])@ == cat_sprite(mood, is_blinking)[i],
{
    if is_blinking && mood != PetMood::Sleeping {
        return [" /\\_/\\ ", "( -.- )", " > ^ < "];
    }
    match mood {
        PetMood::Sleeping => [" /\\_/\\ ", "( -.- ) zZ", " /   \\ "],
        PetMood::Happy => [" /\\_/\\ ", "( \u{2022}.\u{2022} )", " > ^ < "],
        PetMood::Busy => [" /\\_/\\ ", "( o.o )", " /| |\\ "],
        PetMood::HighCpu => [" /\\_/\\ ", "( O.O ) !", " /|!|\\ "],
        PetMood::Hot => [" /\\_/\\ ", "( x.x ) \u{1F525}", " /| |\\ "],
        PetMood::Concerned => [" /\\_/\\ ", "( ;.; ) \u{1F4A6}", " > ^ < "],
        PetMood::Excited => [" /\\_/\\ ", "( ^.^ ) \u{2728}", " /| |\\ "],
        PetMood::Network => [" /\\_/\\ ", "( \u{2022}\u{1D17}\u{2022} ) \u{26A1}", " /| |\\ "],
    }
}

/// Nanoseconds per millisecond.
pub const NANOS_PER_MILLI: u64 = 1_000_000;

/// An open-eyed cat blinks after this long.
pub const BLINK_INTERVAL_NS: u64 = 3_500_000_000;

/// A blink lasts this long.
pub const BLINK_LENGTH_NS: u64 = 250_000_000;

/// Moods other than the critical ones change at most this often.
pub const MOOD_COOLDOWN_NS: u64 = 1_500_000_000;

/// After this long below the idle threshold the cat falls asleep.
pub const SLEEP_AFTER_NS: u64 = 30_000_000_000;

/// State of the companion. Times are nanoseconds on a monotonic clock whose
/// origin is the moment the state was created.
#[derive(Debug, Clone)]
pub struct PetState {
    pub name: String,
    pub mood: PetMood,
    pub favorite: &'static str,
    pub idle_duration_ns: u64,
    pub last_mood_change_ns: u64,
    pub last_blink_toggle_ns: u64,
    pub is_blinking: bool,
    pub visible: bool,
}

/// The value of an optional reading, zero when it is missing.
pub open spec fn or_zero(v: Option<i64>) -> int {
    match v {
        Some(x) => x as int,
        None => 0,
    }
}

/// The mood that the current load calls for. Percentages, temperatures (°C)
/// and the network rate (bytes per second) are whole numbers.
pub open spec fn target_mood(
    cpu_usage: int,
    ram_usage: int,
    gpu_usage: Option<i64>,
    max_temp: Option<i64>,
    net_throughput: int,
    idle_ns: nat,
) -> PetMood {
    if or_zero(max_temp) >= 80 {
        PetMood::Hot
    } else if cpu_usage >= 80 {
        PetMood::HighCpu
    } else if or_zero(gpu_usage) >= 75 {
        PetMood::Excited
    } else if ram_usage >= 85 {
        PetMood::Concerned
    } else if net_throughput >= 10_000_000 {
        PetMood::Network
    } else if cpu_usage >= 35 {
        PetMood::Busy
    } else if idle_ns >= SLEEP_AFTER_NS {
        PetMood::Sleeping
    } else {
        PetMood::Happy
    }
}

/// Time from `earlier` to `later`, zero if `later` is not after `earlier`.
pub open spec fn elapsed(later: u64, earlier: u64) -> nat {
    if later >= earlier {
        (later - earlier) as nat
    } else {
        0
    }
}

/// Critical moods are adopted at once, without waiting for the cooldown.
pub open spec fn is_critical(m: PetMood) -> bool {
    m == PetMood::Hot || m == PetMood::HighCpu
}

/// The state after one update at time `now_ns`, `delta_ns` after the
/// previous frame.
pub open spec fn pet_step(
    old: PetState,
    cpu_usage: int,
    ram_usage: int,
    gpu_usage: Option<i64>,
    max_temp: Option<i64>,
    net_throughput: int,
    delta_ns: u64,
    now_ns: u64,
) -> PetState {
    let blink_elapsed = elapsed(now_ns, old.last_blink_toggle_ns);
    let (is_blinking, last_blink_toggle_ns) = if old.is_blinking && blink_elapsed
        > BLINK_LENGTH_NS {
        (false, now_ns)
    } else if !old.is_blinking && blink_elapsed > BLINK_INTERVAL_NS {
        (true, now_ns)
    } else {
        (old.is_blinking, old.last_blink_toggle_ns)
    };
    let idle: u64 = if cpu_usage < 12 {
        if old.idle_duration_ns + delta_ns > u64::MAX {
            u64::MAX
        } else {
            (old.idle_duration_ns + delta_ns) as u64
        }
    } else {
        0
    };
    let target = target_mood(cpu_usage, ram_usage, gpu_usage, max_temp, net_throughput, idle as nat);
    let can_change = is_critical(target) || elapsed(now_ns, old.last_mood_change_ns)
        >= MOOD_COOLDOWN_NS;
    let (mood, last_mood_change_ns) = if old.mood != target && can_change {
        (target, now_ns)
    } else {
        (old.mood, old.last_mood_change_ns)
    };
    PetState {
        name: old.name,
        mood,
        favorite: old.favorite,
        idle_duration_ns: idle,
        last_mood_change_ns,
        last_blink_toggle_ns,
        is_blinking,
        visible: old.visible,
    }
}

fn elapsed_exec(later: u64, earlier: u64) -> (e: u64)
    ensures
        e == elapsed(later, earlier),
{
    if later >= earlier {
        later - earlier
    } else {
        0
    }
}

impl Default for PetState {
    /// A happy, visible cat named Mochi whose favorite is the GPU, created at
    /// time zero of its clock.
    fn default() -> (p: PetState)
        ensures
            p.name@ == "Mochi"@,
            p.mood == PetMood::Happy,
            p.favorite@ == "GPU"@,
            p.idle_duration_ns == 0,
            p.last_mood_change_ns == 0,
            p.last_blink_toggle_ns == 0,
            !p.is_blinking,
            p.visible,
    {
        PetState::new()
    }
}

impl PetState {
    /// A happy, visible cat named Mochi whose favorite is the GPU, created at
    /// time zero of its clock.
    pub fn new() -> (p: PetState)
        ensures
            p.name@ == "Mochi"@,
            p.mood == PetMood::Happy,
            p.favorite@ == "GPU"@,
            p.idle_duration_ns == 0,
            p.last_mood_change_ns == 0,
            p.last_blink_toggle_ns == 0,
            !p.is_blinking,
            p.visible,
    {
        PetState {
            name: String::from_str("Mochi"),
            mood: PetMood::Happy,
            favorite: "GPU",
            idle_duration_ns: 0,
            last_mood_change_ns: 0,
            last_blink_toggle_ns: 0,
            is_blinking: false,
            visible: true,
        }
    }

    /// Updates blinking, idle time and mood from the current load, with a
    /// cooldown on mood changes that critical moods (overheating, CPU
    /// overload) skip. `cpu_usage` and `ram_usage` are whole percentages,
    /// `gpu_usage` a whole percentage if a GPU is present, `max_temp` the
    /// hottest sensor in whole degrees Celsius if any, `net_throughput` whole
    /// bytes per second; `delta_ns` is the time since the previous frame and
    /// `now_ns` the current time on the state's clock.
    pub fn update(
        &mut self,
        cpu_usage: i64,
        ram_usage: i64,
        gpu_usage: Option<i64>,
        max_temp: Option<i64>,
        net_throughput: i64,
        delta_ns: u64,
        now_ns: u64,
    )
        ensures
            *final(self) == pet_step(
                *old(self),
                cpu_usage as int,
                ram_usage as int,
                gpu_usage,
                max_temp,
                net_throughput as int,
                delta_ns,
                now_ns,
            ),
    {
        let blink_elapsed = elapsed_exec(now_ns, self.last_blink_toggle_ns);
        if self.is_blinking && blink_elapsed > BLINK_LENGTH_NS {
            self.is_blinking = false;
            self.last_blink_toggle_ns = now_ns;
        } else if !self.is_blinking && blink_elapsed > BLINK_INTERVAL_NS {
            self.is_blinking = true;
            self.last_blink_toggle_ns = now_ns;
        }
        if cpu_usage < 12 {
            self.idle_duration_ns = self.idle_duration_ns.saturating_add(delta_ns);
        } else {
            self.idle_duration_ns = 0;
        }
        let temp = match max_temp {
            Some(t) => t,
            None => 0,
        };
        let gpu = match gpu_usage {
            Some(g) => g,
            None => 0,
        };
        let target = if temp >= 80 {
            PetMood::Hot
        } else if cpu_usage >= 80 {
            PetMood::HighCpu
        } else if gpu >= 75 {
            PetMood::Excited
        } else if ram_usage >= 85 {
            PetMood::Concerned
        } else if net_throughput >= 10_000_000 {
            PetMood::Network
        } else if cpu_usage >= 35 {
            PetMood::Busy
        } else if self.idle_duration_ns >= SLEEP_AFTER_NS {
            PetMood::Sleeping
        } else {
            PetMood::Happy
        };
        let can_change = target == PetMood::Hot || target == PetMood::HighCpu || elapsed_exec(
            now_ns,
            self.last_mood_change_ns,
        ) >= MOOD_COOLDOWN_NS;
        if self.mood != target && can_change {
            self.mood = target;
            self.last_mood_change_ns = now_ns;
        }
    }
}

/// Laws of one update: a critical mood that the load calls for is adopted at
/// once; any other change of mood happens only once the cooldown since the
/// previous change has passed, and stamps the change time; name, favorite and
/// visibility never change.
pub proof fn lemma_pet_update_laws(
    old: PetState,
    cpu_usage: int,
    ram_usage: int,
    gpu_usage: Option<i64>,
    max_temp: Option<i64>,
    net_throughput: int,
    delta_ns: u64,
    now_ns: u64,
)
    ensures
        ({
            let new = pet_step(old, cpu_usage, ram_usage, gpu_usage, max_temp, net_throughput, delta_ns, now_ns);
            &&& is_critical(target_mood(cpu_usage, ram_usage, gpu_usage, max_temp, net_throughput, new.idle_duration_ns as nat))
                ==> new.mood == target_mood(cpu_usage, ram_usage, gpu_usage, max_temp, net_throughput, new.idle_duration_ns as nat)
            &&& (new.mood != old.mood && !is_critical(new.mood)) ==> elapsed(now_ns, old.last_mood_change_ns) >= MOOD_COOLDOWN_NS
            &&& new.mood != old.mood ==> new.last_mood_change_ns == now_ns
            &&& new.name == old.name && new.favorite == old.favorite && new.visible == old.visible
            &&& or_zero(max_temp) >= 80 ==> new.mood == PetMood::Hot
        }),
{
}

/// Sustained high temperature or CPU load is never hidden by the cooldown:
/// whatever the previous state, the cat reports it after one update.
pub proof fn lemma_pet_alerts_immediately(
    old: PetState,
    cpu_usage: int,
    ram_usage: int,
    gpu_usage: Option<i64>,
    max_temp: Option<i64>,
    net_throughput: int,
    delta_ns: u64,
    now_ns: u64,
)
    requires
        or_zero(max_temp) < 80,
        cpu_usage >= 80,
    ensures
        pet_step(old, cpu_usage, ram_usage, gpu_usage, max_temp, net_throughput, delta_ns, now_ns).mood
            == PetMood::HighCpu,
{
}

/// Once the cooldown since the last change has passed, an update shows the
/// mood that the load calls for: asleep after half a minute of idling, busy
/// under work, excited when the GPU spins up, and so on.
pub proof fn lemma_pet_follows_load(
    old: PetState,
    cpu_usage: int,
    ram_usage: int,
    gpu_usage: Option<i64>,
    max_temp: Option<i64>,
    net_throughput: int,
    delta_ns: u64,
    now_ns: u64,
)
    requires
        elapsed(now_ns, old.last_mood_change_ns) >= MOOD_COOLDOWN_NS,
    ensures
        ({
            let new = pet_step(old, cpu_usage, ram_usage, gpu_usage, max_temp, net_throughput, delta_ns, now_ns);
            &&& new.mood == target_mood(cpu_usage, ram_usage, gpu_usage, max_temp, net_throughput, new.idle_duration_ns as nat)
            &&& (cpu_usage < 12 && old.idle_duration_ns + delta_ns >= SLEEP_AFTER_NS && or_zero(max_temp) < 80
                && or_zero(gpu_usage) < 75 && ram_usage < 85 && net_throughput < 10_000_000) ==> new.mood
                == PetMood::Sleeping
        }),
{
}

/// Once the cooldown has passed, the mood follows the alarms in order of
/// urgency: heat (80 °C or more) first, then CPU (80 % or more), then the GPU
/// (75 % or more) whatever the memory, then memory (85 % or more), then the
/// network (10 MB/s or more), then work (CPU 35 % or more); a machine idle
/// for half a minute sleeps and any other is happy.
pub proof fn lemma_pet_mood_priorities(
    old: PetState,
    cpu_usage: int,
    ram_usage: int,
    gpu_usage: Option<i64>,
    max_temp: Option<i64>,
    net_throughput: int,
    delta_ns: u64,
    now_ns: u64,
)
    requires
        elapsed(now_ns, old.last_mood_change_ns) >= MOOD_COOLDOWN_NS,
    ensures
        ({
            let new = pet_step(old, cpu_usage, ram_usage, gpu_usage, max_temp, net_throughput, delta_ns, now_ns);
            let temp = match max_temp { Some(t) => t as int, None => 0 };
            let gpu = match gpu_usage { Some(g) => g as int, None => 0 };
            let hot = temp >= 80;
            let cpu_alarm = !hot && cpu_usage >= 80;
            let gpu_alarm = !hot && cpu_usage < 80 && gpu >= 75;
            let ram_alarm = !hot && cpu_usage < 80 && gpu < 75 && ram_usage >= 85;
            let calm = !hot && cpu_usage < 80 && gpu < 75 && ram_usage < 85;
            &&& hot ==> new.mood == PetMood::Hot
            &&& cpu_alarm ==> new.mood == PetMood::HighCpu
            &&& gpu_alarm ==> new.mood == PetMood::Excited
            &&& ram_alarm ==> new.mood == PetMood::Concerned
            &&& calm && net_throughput >= 10_000_000 ==> new.mood == PetMood::Network
            &&& calm && net_throughput < 10_000_000 && cpu_usage >= 35 ==> new.mood == PetMood::Busy
            &&& calm && net_throughput < 10_000_000 && cpu_usage < 35 ==> (new.mood == PetMood::Sleeping
                <==> new.idle_duration_ns >= SLEEP_AFTER_NS)
            &&& calm && net_throughput < 10_000_000 && cpu_usage < 35 ==> (new.mood == PetMood::Sleeping
                || new.mood == PetMood::Happy)
            &&& cpu_usage < 12 ==> new.idle_duration_ns as int == if old.idle_duration_ns + delta_ns
                > u64::MAX { u64::MAX as int } else { old.idle_duration_ns + delta_ns }
            &&& cpu_usage >= 12 ==> new.idle_duration_ns == 0
        }),
{
}

} // verus!
