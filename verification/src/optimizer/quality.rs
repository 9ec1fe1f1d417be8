//! Network quality grades, and the estimate of packet loss.
//!
//! A single number cannot describe a link. A connection with 100 MiB/s of
//! bandwidth and 20% packet loss is not a good connection, and averaging those
//! two facts produces a figure that flatters it. Each dimension is graded
//! separately, and the **worst** grade counts: the dimension that is failing
//! determines what the application actually experiences.

use crate::optimizer::estimate;
use crate::ratio::Ratio;
use crate::smoothing;
use crate::time::Duration;
use vstd::prelude::*;

verus! {

/// A coarse grade for the current network conditions, ordered from worst to
/// best.
#[derive(Debug, Clone, Copy, PartialEq, Eq, PartialOrd, Ord, Hash, Structural)]
#[non_exhaustive]
pub enum NetworkQuality {
    /// Barely usable: severe loss, very high latency, or almost no bandwidth.
    Critical,
    /// Degraded enough that the application should notice and adapt.
    Poor,
    /// Workable, but with headroom worth conserving.
    Fair,
    /// Comfortable for ordinary traffic.
    Good,
    /// Fast, low latency, and essentially lossless.
    Excellent,
}

/// The grade of a link that carries so many bytes per second.
pub open spec fn bandwidth_grade(bytes_per_second: nat) -> NetworkQuality {
    if bytes_per_second >= 8 * 1024 * 1024 {
        NetworkQuality::Excellent
    } else if bytes_per_second >= 1024 * 1024 {
        NetworkQuality::Good
    } else if bytes_per_second >= 256 * 1024 {
        NetworkQuality::Fair
    } else if bytes_per_second >= 32 * 1024 {
        NetworkQuality::Poor
    } else {
        NetworkQuality::Critical
    }
}

/// The grade of a round trip of so many nanoseconds, of which whole milliseconds
/// count.
pub open spec fn rtt_grade(nanos: nat) -> NetworkQuality {
    let millis = nanos / 1_000_000;
    if millis <= 30 {
        NetworkQuality::Excellent
    } else if millis <= 100 {
        NetworkQuality::Good
    } else if millis <= 250 {
        NetworkQuality::Fair
    } else if millis <= 600 {
        NetworkQuality::Poor
    } else {
        NetworkQuality::Critical
    }
}

/// The grade of a link that loses `lost` of every `sent` packets: up to a tenth
/// of a percent, one, three and ten percent.
pub open spec fn loss_grade(lost: nat, sent: nat) -> NetworkQuality {
    if lost * 1000 <= sent {
        NetworkQuality::Excellent
    } else if lost * 100 <= sent {
        NetworkQuality::Good
    } else if lost * 100 <= sent * 3 {
        NetworkQuality::Fair
    } else if lost * 100 <= sent * 10 {
        NetworkQuality::Poor
    } else {
        NetworkQuality::Critical
    }
}

/// `w` is one of the grades, and no grade is worse.
pub open spec fn is_worst(grades: Seq<NetworkQuality>, w: NetworkQuality) -> bool {
    &&& grades.contains(w)
    &&& forall|i: int| 0 <= i < grades.len() ==> w.rank() <= (#[trigger] grades[i]).rank()
}

/// The worst of the grades.
pub open spec fn worst(grades: Seq<NetworkQuality>) -> NetworkQuality {
    choose|w: NetworkQuality| is_worst(grades, w)
}

/// Among any grades there is a worst one.
pub proof fn there_is_a_worst(grades: Seq<NetworkQuality>)
    requires
        grades.len() > 0,
    ensures
        is_worst(grades, worst(grades)),
    decreases grades.len(),
{
    let w = if grades.len() == 1 {
        grades[0]
    } else {
        there_is_a_worst(grades.drop_last());
        worst(grades.drop_last()).worse(grades.last())
    };
    assert(grades.contains(w)) by {
        if w == grades.last() {
            assert(grades[grades.len() - 1] == w);
        } else {
            let i = grades.drop_last().index_of(w);
            assert(grades[i] == w);
        }
    }
    assert forall|i: int| 0 <= i < grades.len() implies w.rank() <= (#[trigger] grades[i]).rank() by {
        if i < grades.len() - 1 {
            assert(grades.drop_last()[i] == grades[i]);
        }
    }
    assert(is_worst(grades, w));
}

/// The worst grade is the only one that no other is worse than.
pub proof fn worst_is_worst(grades: Seq<NetworkQuality>, w: NetworkQuality)
    requires
        is_worst(grades, w),
    ensures
        w == worst(grades),
{
    the_worst_grade_decides(grades, worst(grades), w);
}

impl NetworkQuality {
    /// Where the grade stands, counted from the worst.
    pub open spec fn rank(self) -> u8 {
        match self {
            NetworkQuality::Critical => 0,
            NetworkQuality::Poor => 1,
            NetworkQuality::Fair => 2,
            NetworkQuality::Good => 3,
            NetworkQuality::Excellent => 4,
        }
    }

    /// Conditions warrant conserving bandwidth.
    pub open spec fn degraded(self) -> bool {
        self.rank() <= 2
    }

    /// The worse of two grades.
    pub open spec fn worse(self, other: NetworkQuality) -> NetworkQuality {
        if other.rank() < self.rank() {
            other
        } else {
            self
        }
    }

    /// Every grade, worst first.
    pub fn all() -> (v: Vec<NetworkQuality>)
        ensures
            v@ == seq![
                NetworkQuality::Critical,
                NetworkQuality::Poor,
                NetworkQuality::Fair,
                NetworkQuality::Good,
                NetworkQuality::Excellent,
            ],
    {
        let mut v: Vec<NetworkQuality> = Vec::new();
        v.push(NetworkQuality::Critical);
        v.push(NetworkQuality::Poor);
        v.push(NetworkQuality::Fair);
        v.push(NetworkQuality::Good);
        v.push(NetworkQuality::Excellent);
        assert(v@ =~= seq![
            NetworkQuality::Critical,
            NetworkQuality::Poor,
            NetworkQuality::Fair,
            NetworkQuality::Good,
            NetworkQuality::Excellent,
        ]);
        v
    }

    /// Returns a score from 0 to 4, higher being better.
    pub fn score(self) -> (s: u8)
        ensures
            s == self.rank(),
    {
        match self {
            NetworkQuality::Critical => 0,
            NetworkQuality::Poor => 1,
            NetworkQuality::Fair => 2,
            NetworkQuality::Good => 3,
            NetworkQuality::Excellent => 4,
        }
    }

    /// Returns `true` when conditions warrant conserving bandwidth: from
    /// [`NetworkQuality::Fair`] down, spending CPU to save bytes pays off.
    pub fn is_degraded(self) -> (r: bool)
        ensures
            r == self.degraded(),
    {
        match self {
            NetworkQuality::Critical | NetworkQuality::Poor | NetworkQuality::Fair => true,
            _ => false,
        }
    }

    /// Returns `true` when the link is in trouble rather than merely busy.
    pub fn is_critical(self) -> (r: bool)
        ensures
            r == (self is Critical),
    {
        match self {
            NetworkQuality::Critical => true,
            _ => false,
        }
    }

    /// A short description.
    pub open spec fn describing(self) -> Seq<char> {
        match self {
            NetworkQuality::Critical =>
                "critical: severe loss, latency, or bandwidth starvation"@,
            NetworkQuality::Poor => "poor: degraded enough to require adaptation"@,
            NetworkQuality::Fair => "fair: workable, with headroom worth conserving"@,
            NetworkQuality::Good => "good: comfortable for ordinary traffic"@,
            NetworkQuality::Excellent => "excellent: fast, low latency, essentially lossless"@,
        }
    }

    /// Returns a short human-readable description.
    pub fn description(self) -> (s: &'static str)
        ensures
            s@ == self.describing(),
    {
        match self {
            NetworkQuality::Critical => "critical: severe loss, latency, or bandwidth starvation",
            NetworkQuality::Poor => "poor: degraded enough to require adaptation",
            NetworkQuality::Fair => "fair: workable, with headroom worth conserving",
            NetworkQuality::Good => "good: comfortable for ordinary traffic",
            NetworkQuality::Excellent => "excellent: fast, low latency, essentially lossless",
        }
    }

    /// Grades a bandwidth estimate in whole bytes per second.
    pub fn from_bandwidth(bytes_per_second: u64) -> (q: NetworkQuality)
        ensures
            q == bandwidth_grade(bytes_per_second as nat),
    {
        if bytes_per_second >= 8 * 1024 * 1024 {
            NetworkQuality::Excellent
        } else if bytes_per_second >= 1024 * 1024 {
            NetworkQuality::Good
        } else if bytes_per_second >= 256 * 1024 {
            NetworkQuality::Fair
        } else if bytes_per_second >= 32 * 1024 {
            NetworkQuality::Poor
        } else {
            NetworkQuality::Critical
        }
    }

    /// Grades a round-trip time.
    pub fn from_rtt(rtt: Duration) -> (q: NetworkQuality)
        ensures
            q == rtt_grade(rtt.nanos()),
    {
        let millis: u128 = rtt.as_millis();
        if millis <= 30 {
            NetworkQuality::Excellent
        } else if millis <= 100 {
            NetworkQuality::Good
        } else if millis <= 250 {
            NetworkQuality::Fair
        } else if millis <= 600 {
            NetworkQuality::Poor
        } else {
            NetworkQuality::Critical
        }
    }

    /// Grades a packet loss ratio.
    ///
    /// Loss is graded harshly because its effect compounds: every lost packet
    /// costs a retransmission *and* a round trip of delay, so a few percent hurts
    /// far more than the raw number suggests.
    pub fn from_loss(ratio: Ratio) -> (q: NetworkQuality)
        requires
            ratio.wf(),
        ensures
            q == loss_grade(ratio.numerator as nat, ratio.denominator as nat),
    {
        let lost: u128 = ratio.numerator as u128;
        let sent: u128 = ratio.denominator as u128;
        if lost * 1000 <= sent {
            NetworkQuality::Excellent
        } else if lost * 100 <= sent {
            NetworkQuality::Good
        } else if lost * 100 <= sent * 3 {
            NetworkQuality::Fair
        } else if lost * 100 <= sent * 10 {
            NetworkQuality::Poor
        } else {
            NetworkQuality::Critical
        }
    }

    /// Combines several grades, returning the worst.
    ///
    /// Averaging would let a fast link disguise heavy loss. The failing dimension
    /// is what the application experiences, so it wins.
    pub fn worst_of(grades: &[NetworkQuality]) -> (w: Option<NetworkQuality>)
        ensures
            match w {
                Some(q) => is_worst(grades@, q),
                None => grades@.len() == 0,
            },
    {
        if grades.len() == 0 {
            return None;
        }
        let mut worst = grades[0];
        let mut i: usize = 1;
        while i < grades.len()
            invariant
                1 <= i <= grades@.len(),
                grades@.contains(worst),
                forall|j: int| 0 <= j < i ==> worst.rank() <= (#[trigger] grades@[j]).rank(),
            decreases grades@.len() - i,
        {
            if grades[i].score() < worst.score() {
                worst = grades[i];
            }
            i += 1;
        }
        Some(worst)
    }

    /// Returns the worse of two grades.
    pub fn min_of(self, other: NetworkQuality) -> (q: NetworkQuality)
        ensures
            q == self.worse(other),
    {
        if other.score() < self.score() {
            other
        } else {
            self
        }
    }

    /// The grade in words.
    pub open spec fn text(self) -> Seq<char> {
        match self {
            NetworkQuality::Critical => "critical"@,
            NetworkQuality::Poor => "poor"@,
            NetworkQuality::Fair => "fair"@,
            NetworkQuality::Good => "good"@,
            NetworkQuality::Excellent => "excellent"@,
        }
    }

    /// Returns the grade in words.
    pub fn to_string(&self) -> (s: String)
        ensures
            s@ == self.text(),
    {
        match self {
            NetworkQuality::Critical => "critical".to_owned(),
            NetworkQuality::Poor => "poor".to_owned(),
            NetworkQuality::Fair => "fair".to_owned(),
            NetworkQuality::Good => "good".to_owned(),
            NetworkQuality::Excellent => "excellent".to_owned(),
        }
    }
}

impl Default for NetworkQuality {
    fn default() -> (q: NetworkQuality)
        ensures
            q == NetworkQuality::Good,
    {
        NetworkQuality::Good
    }
}

/// A better measurement never gives a worse grade.
pub proof fn better_measurements_grade_no_worse(
    slow: nat,
    fast: nat,
    short: nat,
    long: nat,
    few: nat,
    many: nat,
    sent: nat,
)
    requires
        slow <= fast,
        short <= long,
        few <= many,
    ensures
        bandwidth_grade(slow).rank() <= bandwidth_grade(fast).rank(),
        rtt_grade(long).rank() <= rtt_grade(short).rank(),
        loss_grade(many, sent).rank() <= loss_grade(few, sent).rank(),
{
}

/// There is exactly one worst grade: the failing dimension decides, however good
/// the others are.
pub proof fn the_worst_grade_decides(
    grades: Seq<NetworkQuality>,
    w: NetworkQuality,
    failing: NetworkQuality,
)
    requires
        is_worst(grades, w),
        grades.contains(failing),
    ensures
        w.rank() <= failing.rank(),
        is_worst(grades, failing) ==> w == failing,
        failing is Critical ==> w is Critical,
{
    let i = grades.index_of(failing);
    assert(grades[i] == failing);
    if is_worst(grades, failing) {
        let j = grades.index_of(w);
        assert(grades[j] == w);
    }
}

/// How many parts make a loss ratio of one.
pub const LOSS_PARTS: u64 = 1_000_000_000_000_000_000;

/// What is known of the packets that a link loses.
pub struct LossState {
    /// The average loss ratio, in parts of one.
    pub ratio: Option<nat>,
    /// The share of the distance that a batch moves the average by.
    pub share: Ratio,
    /// The packets that arrived.
    pub delivered: nat,
    /// The packets that did not arrive.
    pub lost: nat,
}

impl LossState {
    /// Nothing is known yet.
    pub open spec fn initial(share: Ratio) -> LossState {
        LossState { ratio: None, share, delivered: 0, lost: 0 }
    }

    /// One more batch, of which `delivered` arrived and `lost` did not. An empty
    /// batch is ignored.
    pub open spec fn after(self, delivered: nat, lost: nat) -> LossState {
        if delivered + lost == 0 {
            self
        } else {
            LossState {
                ratio: Some(
                    smoothing::averaged(
                        self.ratio,
                        lost * LOSS_PARTS as nat / (delivered + lost),
                        self.share,
                    ),
                ),
                share: self.share,
                delivered: self.delivered + delivered,
                lost: self.lost + lost,
            }
        }
    }

    /// Enough packets have been seen to trust the estimate. A single loss out of
    /// two packets is a 50% ratio and means nothing.
    pub open spec fn confident(self) -> bool {
        self.delivered + self.lost >= 20
    }

    /// The average as a fraction.
    pub open spec fn fraction(self) -> Option<Ratio> {
        match self.ratio {
            Some(parts) => Some(Ratio { numerator: parts as u64, denominator: LOSS_PARTS }),
            None => None,
        }
    }
}

/// Estimates how many packets a link loses.
#[derive(Debug, Clone, Copy, PartialEq, Eq, Structural)]
pub struct LossEstimator {
    smoothed: Option<u128>,
    smoothing: Ratio,
    delivered: u64,
    lost: u64,
}

impl View for LossEstimator {
    type V = LossState;

    closed spec fn view(&self) -> LossState {
        LossState {
            ratio: match self.smoothed {
                Some(parts) => Some(parts as nat),
                None => None,
            },
            share: self.smoothing,
            delivered: self.delivered as nat,
            lost: self.lost as nat,
        }
    }
}

impl LossEstimator {
    #[verifier::type_invariant]
    spec fn well_kept(self) -> bool {
        &&& self.smoothed matches Some(parts) ==> parts <= LOSS_PARTS
        &&& smoothing::is_share(self.smoothing)
        &&& self.delivered + self.lost <= u64::MAX
    }

    /// Creates an estimator with the default smoothing factor.
    pub fn new() -> (e: LossEstimator)
        ensures
            e@ == LossState::initial(estimate::eighth()),
    {
        LossEstimator {
            smoothed: None,
            smoothing: estimate::default_smoothing(),
            delivered: 0,
            lost: 0,
        }
    }

    /// Creates an estimator with a specific smoothing factor, at least a
    /// hundredth and at most one.
    pub fn with_smoothing(smoothing: Ratio) -> (e: LossEstimator)
        requires
            smoothing.wf(),
        ensures
            e@ == LossState::initial(smoothing::effective(smoothing)),
    {
        LossEstimator {
            smoothed: None,
            smoothing: smoothing::within_bounds(smoothing),
            delivered: 0,
            lost: 0,
        }
    }

    /// Records the outcome of a batch: `delivered` arrived, `lost` did not.
    ///
    /// An empty batch is ignored rather than treated as zero loss, which would
    /// let idle periods wash out a genuine problem.
    pub fn sample(&mut self, delivered: u64, lost: u64)
        requires
            old(self)@.delivered + old(self)@.lost + delivered + lost <= u64::MAX,
        ensures
            final(self)@ == old(self)@.after(delivered as nat, lost as nat),
    {
        proof {
            use_type_invariant(&*self);
        }
        let total: u64 = delivered + lost;
        if total == 0 {
            return;
        }
        let ratio: u128 = (lost as u128) * (LOSS_PARTS as u128) / (total as u128);
        proof {
            assert(lost * LOSS_PARTS / (total as int) <= LOSS_PARTS) by (nonlinear_arith)
                requires
                    lost <= total,
                    total > 0,
            ;
            if let Some(current) = self.smoothed {
                smoothing::averages_stay_within_their_samples(
                    current as nat,
                    ratio as nat,
                    self.smoothing,
                );
            }
        }
        let smoothed: u128 = smoothing::average(self.smoothed, ratio, self.smoothing);
        *self = LossEstimator {
            smoothed: Some(smoothed),
            smoothing: self.smoothing,
            delivered: self.delivered + delivered,
            lost: self.lost + lost,
        };
    }

    /// Records a single delivered packet.
    pub fn record_delivered(&mut self)
        requires
            old(self)@.delivered + old(self)@.lost < u64::MAX,
        ensures
            final(self)@ == old(self)@.after(1, 0),
    {
        self.sample(1, 0);
    }

    /// Records a single lost packet.
    pub fn record_lost(&mut self)
        requires
            old(self)@.delivered + old(self)@.lost < u64::MAX,
        ensures
            final(self)@ == old(self)@.after(0, 1),
    {
        self.sample(0, 1);
    }

    /// Returns the smoothed loss ratio, if any sample exists.
    pub fn ratio(&self) -> (r: Option<Ratio>)
        ensures
            r == self@.fraction(),
            r matches Some(ratio) ==> self@.ratio == Some(ratio.numerator as nat)
                && ratio.numerator <= ratio.denominator == LOSS_PARTS,
    {
        proof {
            use_type_invariant(self);
        }
        match self.smoothed {
            Some(parts) => Some(Ratio::new(parts as u64, LOSS_PARTS)),
            None => None,
        }
    }

    /// Returns the total packets delivered.
    pub fn delivered(&self) -> (n: u64)
        ensures
            n == self@.delivered,
    {
        self.delivered
    }

    /// Returns the total packets lost.
    pub fn lost(&self) -> (n: u64)
        ensures
            n == self@.lost,
    {
        self.lost
    }

    /// Returns the lifetime loss ratio across every sample.
    ///
    /// Unlike [`LossEstimator::ratio`] this does not decay, so it describes the
    /// whole connection rather than its current state.
    pub fn lifetime_ratio(&self) -> (r: Ratio)
        ensures
            r == Ratio::share(self@.lost, self@.delivered + self@.lost),
    {
        proof {
            use_type_invariant(self);
        }
        Ratio::of(self.lost, self.delivered + self.lost)
    }

    /// Returns `true` once enough packets have been seen to trust the estimate.
    pub fn is_confident(&self) -> (r: bool)
        ensures
            r == self@.confident(),
    {
        proof {
            use_type_invariant(self);
        }
        self.delivered + self.lost >= 20
    }

    /// Discards all history.
    pub fn reset(&mut self)
        ensures
            final(self)@ == LossState::initial(old(self)@.share),
    {
        proof {
            use_type_invariant(&*self);
        }
        self.smoothed = None;
        self.delivered = 0;
        self.lost = 0;
    }
}

impl Default for LossEstimator {
    fn default() -> (e: LossEstimator)
        ensures
            e@ == LossState::initial(estimate::eighth()),
    {
        LossEstimator::new()
    }
}

/// A loss ratio stays between nothing and everything; losing nothing at first is
/// a ratio of nothing, and losing everything one of everything.
pub proof fn loss_ratios_are_ratios(s: LossState, delivered: nat, lost: nat)
    requires
        smoothing::is_share(s.share),
        s.ratio matches Some(parts) ==> parts <= LOSS_PARTS,
        delivered + lost > 0,
    ensures
        s.after(delivered, lost).ratio->0 <= LOSS_PARTS,
        s.ratio is None && lost == 0 ==> s.after(delivered, lost).ratio == Some(0nat),
        s.ratio is None && delivered == 0 ==> s.after(delivered, lost).ratio == Some(
            LOSS_PARTS as nat,
        ),
{
    let total = delivered + lost;
    let sample = lost * LOSS_PARTS as nat / total;
    assert(lost * LOSS_PARTS / (total as int) <= LOSS_PARTS) by (nonlinear_arith)
        requires
            lost <= total,
            total > 0,
    ;
    if delivered == 0 {
        vstd::arithmetic::div_mod::lemma_div_multiples_vanish(LOSS_PARTS as int, total as int);
        assert(lost * LOSS_PARTS == total * LOSS_PARTS);
    }
    if lost == 0 {
        assert(0int / total as int == 0) by (nonlinear_arith)
            requires
                total > 0,
        ;
    }
    if let Some(current) = s.ratio {
        smoothing::averages_stay_within_their_samples(current, sample, s.share);
    }
}

/// Where the grades of a bandwidth begin: 8 MiB/s, 1 MiB/s, 256 KiB/s and 32 KiB/s.
pub proof fn bandwidth_grades_begin(bytes_per_second: nat)
    ensures
        bandwidth_grade(bytes_per_second) is Excellent <==> bytes_per_second >= 8_388_608,
        bandwidth_grade(bytes_per_second) is Good <==> 1_048_576 <= bytes_per_second < 8_388_608,
        bandwidth_grade(bytes_per_second) is Fair <==> 262_144 <= bytes_per_second < 1_048_576,
        bandwidth_grade(bytes_per_second) is Poor <==> 32_768 <= bytes_per_second < 262_144,
        bandwidth_grade(bytes_per_second) is Critical <==> bytes_per_second < 32_768,
{
}

/// Where the grades of a round trip end: before 31, 101, 251 and 601 milliseconds.
pub proof fn rtt_grades_end(nanos: nat)
    ensures
        rtt_grade(nanos) is Excellent <==> nanos < 31_000_000,
        rtt_grade(nanos) is Good <==> 31_000_000 <= nanos < 101_000_000,
        rtt_grade(nanos) is Fair <==> 101_000_000 <= nanos < 251_000_000,
        rtt_grade(nanos) is Poor <==> 251_000_000 <= nanos < 601_000_000,
        rtt_grade(nanos) is Critical <==> nanos >= 601_000_000,
{
}

/// Where the grades of a loss ratio end: with 0.1%, 1%, 3% and 10% of the packets.
pub proof fn loss_grades_end(lost: nat, sent: nat)
    ensures
        loss_grade(lost, sent) is Excellent <==> lost * 1000 <= sent,
        loss_grade(lost, sent) is Good <==> lost * 1000 > sent && lost * 100 <= sent,
        loss_grade(lost, sent) is Fair <==> lost * 100 > sent && lost * 100 <= sent * 3,
        loss_grade(lost, sent) is Poor <==> lost * 100 > sent * 3 && lost * 10 <= sent,
        loss_grade(lost, sent) is Critical <==> lost * 10 > sent,
{
}

/// Grades stand in the order of their names, from the worst to the best; conditions
/// count as degraded from fair down, and of two grades the worse one counts.
pub proof fn grades_stand_in_order(a: NetworkQuality, b: NetworkQuality)
    ensures
        NetworkQuality::Critical.rank() < NetworkQuality::Poor.rank(),
        NetworkQuality::Poor.rank() < NetworkQuality::Fair.rank(),
        NetworkQuality::Fair.rank() < NetworkQuality::Good.rank(),
        NetworkQuality::Good.rank() < NetworkQuality::Excellent.rank(),
        a.rank() == b.rank() ==> a == b,
        a.degraded() <==> a is Critical || a is Poor || a is Fair,
        a.worse(b) == a || a.worse(b) == b,
        a.worse(b).rank() <= a.rank() && a.worse(b).rank() <= b.rank(),
{
}

/// What one batch does: the ratio becomes its share of losses if it is the first,
/// and moves toward it by the share otherwise; packets are added up. An empty batch
/// does nothing, and twenty packets are enough to trust the ratio.
pub proof fn one_batch_moves_the_ratio(s: LossState, delivered: nat, lost: nat)
    requires
        smoothing::is_share(s.share),
    ensures
        s.after(0, 0) == s,
        s.confident() <==> s.delivered + s.lost >= 20,
        delivered + lost > 0 ==> exists|sample: nat|
            {
                let after = s.after(delivered, lost);
                let (n, d) = (s.share.numerator, s.share.denominator);
                &&& #[trigger] is_ratio_of(sample, lost, delivered + lost)
                &&& after.ratio is Some
                &&& s.ratio is None ==> after.ratio->0 == sample
                &&& s.ratio matches Some(old) ==> -d < d * after.ratio->0 - ((d - n) * old + n
                    * sample) < d
                &&& after.delivered == s.delivered + delivered
                &&& after.lost == s.lost + lost
                &&& after.share == s.share
            },
{
    if delivered + lost > 0 {
        let total = delivered + lost;
        let sample = lost * LOSS_PARTS as nat / total;
        vstd::arithmetic::div_mod::lemma_fundamental_div_mod(
            (lost * LOSS_PARTS) as int,
            total as int,
        );
        assert(sample * total <= lost * LOSS_PARTS < (sample + 1) * total) by (nonlinear_arith)
            requires
                lost * LOSS_PARTS == total * sample + (lost * LOSS_PARTS) % total as int,
                0 <= (lost * LOSS_PARTS) % (total as int) < total,
        ;
        assert(is_ratio_of(sample, lost, total));
        if let Some(old) = s.ratio {
            smoothing::averages_weigh_old_against_new(old, sample, s.share);
        }
    }
}

/// `parts` of a million million million are `lost` of `total`, to the part below.
pub open spec fn is_ratio_of(parts: nat, lost: nat, total: nat) -> bool {
    parts * total <= lost * 1_000_000_000_000_000_000 < (parts + 1) * total
}

/// Nothing is known of losses before the first batch.
pub proof fn losses_start_from_nothing(share: Ratio)
    ensures
        ({
            let l = LossState::initial(share);
            &&& l.ratio is None && l.delivered == 0 && l.lost == 0 && l.share == share
        }),
{
}

} // verus!
