use vstd::prelude::*;

use crate::error::AdrenaError;
use crate::key::Key;

verus! {

/// The value of a team or a continent that means "none chosen".
pub const DEFAULT_CHOICE: u8 = 0u8;

/// The signer allowed to grant or remove achievements.
pub open spec fn achievement_authority_spec() -> Key {
    Key { hi: 78670374371787805372032054587163169193u128, lo: 57931519322563386622745960422763215933u128 }
}

/// The signer allowed to grant or remove achievements.
pub fn achievement_authority() -> (k: Key)
    ensures
        k == achievement_authority_spec(),
{
    Key { hi: 78670374371787805372032054587163169193u128, lo: 57931519322563386622745960422763215933u128 }
}

/// A trader's profile: the cosmetics they chose in their last edit, those they have selected
/// since, their team, continent and referrer, the achievements they hold, and the referral
/// fees they earned.
pub struct UserProfile {
    pub profile_picture: u8,
    pub wallpaper: u8,
    pub title: u8,
    pub selected_pfp: u8,
    pub selected_wallpaper: u8,
    pub selected_title: u8,
    pub team: u8,
    pub continent: u8,
    /// The referrer's profile, or the default key where there is none.
    pub referrer_profile: Key,
    /// The achievements held, each once.
    pub achievements: Vec<u8>,
    pub claimable_referral_fee_usd: u64,
    pub total_referral_fee_usd: u64,
}

impl UserProfile {
    /// No achievement is held twice.
    pub open spec fn well_formed(&self) -> bool {
        self.achievements@.no_duplicates()
    }

    /// A profile with default cosmetics, no team, continent, referrer, achievement or fee.
    pub fn new() -> (p: UserProfile)
        ensures
            p.well_formed(),
            p.profile_picture == 0 && p.wallpaper == 0 && p.title == 0,
            p.selected_pfp == 0 && p.selected_wallpaper == 0 && p.selected_title == 0,
            p.team == DEFAULT_CHOICE && p.continent == DEFAULT_CHOICE,
            p.referrer_profile == Key::default_spec(),
            p.achievements@.len() == 0,
            p.claimable_referral_fee_usd == 0 && p.total_referral_fee_usd == 0,
    {
        UserProfile {
            profile_picture: 0,
            wallpaper: 0,
            title: 0,
            selected_pfp: 0,
            selected_wallpaper: 0,
            selected_title: 0,
            team: DEFAULT_CHOICE,
            continent: DEFAULT_CHOICE,
            referrer_profile: Key::default_key(),
            achievements: Vec::new(),
            claimable_referral_fee_usd: 0,
            total_referral_fee_usd: 0,
        }
    }

    /// Whether the profile holds an achievement.
    pub fn has_achievement(&self, achievement: u8) -> (b: bool)
        ensures
            b == self.achievements@.contains(achievement),
    {
        let mut i: usize = 0;
        while i < self.achievements.len()
            invariant
                i <= self.achievements@.len(),
                forall|j: int| 0 <= j < i ==> self.achievements@[j] != achievement,
            decreases self.achievements@.len() - i,
        {
            if self.achievements[i] == achievement {
                return true;
            }
            i = i + 1;
        }
        false
    }

    /// Grants an achievement; holding it already changes nothing.
    pub fn unlock_achievement(&mut self, achievement: u8)
        requires
            old(self).well_formed(),
        ensures
            final(self).well_formed(),
            forall|a: u8| #[trigger]
                final(self).achievements@.contains(a) <==> (old(self).achievements@.contains(a)
                    || a == achievement),
            final(self).profile_picture == old(self).profile_picture,
            final(self).wallpaper == old(self).wallpaper,
            final(self).title == old(self).title,
            final(self).selected_pfp == old(self).selected_pfp,
            final(self).selected_wallpaper == old(self).selected_wallpaper,
            final(self).selected_title == old(self).selected_title,
            final(self).team == old(self).team,
            final(self).continent == old(self).continent,
            final(self).referrer_profile == old(self).referrer_profile,
            final(self).claimable_referral_fee_usd == old(self).claimable_referral_fee_usd,
            final(self).total_referral_fee_usd == old(self).total_referral_fee_usd,
    {
        if !self.has_achievement(achievement) {
            self.achievements.push(achievement);
            proof {
                assert forall|a: u8| #[trigger]
                    self.achievements@.contains(a) <==> (old(self).achievements@.contains(a) || a
                        == achievement) by {
                    if a == achievement {
                        assert(self.achievements@[self.achievements@.len() - 1] == a);
                    }
                    if self.achievements@.contains(a) && a != achievement {
                        let j = choose|j: int|
                            0 <= j < self.achievements@.len() && self.achievements@[j] == a;
                        assert(old(self).achievements@[j] == a);
                    }
                    if old(self).achievements@.contains(a) {
                        let j = choose|j: int|
                            0 <= j < old(self).achievements@.len() && old(self).achievements@[j]
                                == a;
                        assert(self.achievements@[j] == a);
                    }
                }
            }
        }
    }

    /// Removes an achievement; not holding it changes nothing.
    pub fn remove_achievement(&mut self, achievement: u8)
        requires
            old(self).well_formed(),
        ensures
            final(self).well_formed(),
            forall|a: u8| #[trigger]
                final(self).achievements@.contains(a) <==> (old(self).achievements@.contains(a)
                    && a != achievement),
            final(self).profile_picture == old(self).profile_picture,
            final(self).wallpaper == old(self).wallpaper,
            final(self).title == old(self).title,
            final(self).selected_pfp == old(self).selected_pfp,
            final(self).selected_wallpaper == old(self).selected_wallpaper,
            final(self).selected_title == old(self).selected_title,
            final(self).team == old(self).team,
            final(self).continent == old(self).continent,
            final(self).referrer_profile == old(self).referrer_profile,
            final(self).claimable_referral_fee_usd == old(self).claimable_referral_fee_usd,
            final(self).total_referral_fee_usd == old(self).total_referral_fee_usd,
    {
        let mut i: usize = 0;
        while i < self.achievements.len()
            invariant
                i <= self.achievements@.len(),
                *self == *old(self),
                old(self).well_formed(),
                forall|j: int| 0 <= j < i ==> self.achievements@[j] != achievement,
            decreases self.achievements@.len() - i,
        {
            if self.achievements[i] == achievement {
                let ghost before = self.achievements@;
                self.achievements.remove(i);
                proof {
                    assert(self.achievements@ =~= before.remove(i as int));
                    assert forall|a: u8| #[trigger]
                        self.achievements@.contains(a) <==> (before.contains(a) && a
                            != achievement) by {
                        if self.achievements@.contains(a) {
                            let j = choose|j: int|
                                0 <= j < self.achievements@.len() && self.achievements@[j] == a;
                            let bj = if j < i { j } else { j + 1 };
                            assert(before[bj] == a);
                            assert(bj != i);
                            assert(before[i as int] == achievement);
                            assert(before[bj] != before[i as int]);
                        }
                        if before.contains(a) && a != achievement {
                            let j = choose|j: int| 0 <= j < before.len() && before[j] == a;
                            if j < i {
                                assert(self.achievements@[j] == a);
                            } else {
                                assert(j != i);
                                assert(self.achievements@[j - 1] == a);
                            }
                        }
                    }
                    assert forall|x: int, y: int|
                        0 <= x < self.achievements@.len() && 0 <= y < self.achievements@.len()
                            && x != y implies self.achievements@[x] != self.achievements@[y] by {
                        let bx = if x < i { x } else { x + 1 };
                        let by_ = if y < i { y } else { y + 1 };
                        assert(before[bx] == self.achievements@[x]);
                        assert(before[by_] == self.achievements@[y]);
                        assert(bx != by_);
                        assert(before[bx] != before[by_]);
                    }
                }
                return;
            }
            i = i + 1;
        }
    }
}

/// Selects `title` on the profile where the profile has unlocked it (`title_unlocked`);
/// `TitleNotAvailable` otherwise, and the profile is left as it was.
pub fn change_title(profile: &mut UserProfile, title: u8, title_unlocked: bool) -> (r: Result<
    (),
    AdrenaError,
>)
    ensures
        !title_unlocked ==> r == Err::<(), AdrenaError>(AdrenaError::TitleNotAvailable) && *final(profile) == *old(profile),
        title_unlocked ==> r == Ok::<(), AdrenaError>(()) && *final(profile) == (UserProfile {
            selected_title: title,
            ..*old(profile)
        }),
{
    if !title_unlocked {
        return Err(AdrenaError::TitleNotAvailable);
    }
    profile.selected_title = title;
    Ok(())
}

/// Selects `profile_picture` on the profile where the profile has unlocked it;
/// `ProfilePictureNotAvailable` otherwise, and the profile is left as it was.
pub fn change_profile_picture(
    profile: &mut UserProfile,
    profile_picture: u8,
    profile_picture_unlocked: bool,
) -> (r: Result<(), AdrenaError>)
    ensures
        !profile_picture_unlocked ==> r == Err::<(), AdrenaError>(
            AdrenaError::ProfilePictureNotAvailable,
        ) && *final(profile) == *old(profile),
        profile_picture_unlocked ==> r == Ok::<(), AdrenaError>(()) && *final(profile) == (
        UserProfile { selected_pfp: profile_picture, ..*old(profile) }),
{
    if !profile_picture_unlocked {
        return Err(AdrenaError::ProfilePictureNotAvailable);
    }
    profile.selected_pfp = profile_picture;
    Ok(())
}

/// Selects `wallpaper` on the profile where the profile has unlocked it;
/// `WallpaperNotAvailable` otherwise, and the profile is left as it was.
pub fn change_wallpaper(profile: &mut UserProfile, wallpaper: u8, wallpaper_unlocked: bool) -> (r:
    Result<(), AdrenaError>)
    ensures
        !wallpaper_unlocked ==> r == Err::<(), AdrenaError>(AdrenaError::WallpaperNotAvailable)
            && *final(profile) == *old(profile),
        wallpaper_unlocked ==> r == Ok::<(), AdrenaError>(()) && *final(profile) == (UserProfile {
            selected_wallpaper: wallpaper,
            ..*old(profile)
        }),
{
    if !wallpaper_unlocked {
        return Err(AdrenaError::WallpaperNotAvailable);
    }
    profile.selected_wallpaper = wallpaper;
    Ok(())
}

/// What an edit of a profile asks for.
pub struct EditUserProfileParams {
    pub profile_picture: u8,
    pub wallpaper: u8,
    pub title: u8,
    pub team: Option<u8>,
    pub continent: Option<u8>,
}

/// What the profile's catalogue says of the requested items: whether each number names an
/// existing item, and whether the profile has unlocked the cosmetics.
pub struct ProfileItemStatus {
    pub wallpaper_exists: bool,
    pub profile_picture_exists: bool,
    pub title_exists: bool,
    pub team_exists: bool,
    pub continent_exists: bool,
    pub wallpaper_unlocked: bool,
    pub profile_picture_unlocked: bool,
    pub title_unlocked: bool,
}

/// The error that an edit of a profile is answered with, in the order in which the checks
/// are made, or `None` where the edit is accepted.
pub open spec fn edit_user_profile_error(
    profile: UserProfile,
    profile_key: Key,
    params: EditUserProfileParams,
    status: ProfileItemStatus,
    referrer: Option<Key>,
) -> Option<AdrenaError> {
    if !status.wallpaper_exists || !status.profile_picture_exists || !status.title_exists {
        Some(AdrenaError::InvalidWallpaperOrProfilePictureOrTitle)
    } else if (params.team is Some && !status.team_exists) || (params.continent is Some
        && !status.continent_exists) {
        Some(AdrenaError::InvalidContinentOrTeam)
    } else if !status.wallpaper_unlocked {
        Some(AdrenaError::WallpaperNotUnlocked)
    } else if !status.profile_picture_unlocked {
        Some(AdrenaError::ProfilePictureNotUnlocked)
    } else if !status.title_unlocked {
        Some(AdrenaError::TitleNotUnlocked)
    } else if params.team matches Some(t) && t == DEFAULT_CHOICE {
        Some(AdrenaError::InvalidContinentOrTeam)
    } else if params.team is Some && profile.team != DEFAULT_CHOICE {
        Some(AdrenaError::TeamImmutable)
    } else if params.continent matches Some(c) && c == DEFAULT_CHOICE {
        Some(AdrenaError::InvalidContinentOrTeam)
    } else if referrer matches Some(k) && k == profile_key {
        Some(AdrenaError::InvalidAccountData)
    } else {
        None
    }
}

/// Edits a profile: its cosmetics, its team once, its continent and its referrer
/// (`referrer` is the referrer profile's key, if one is given; `profile_key` the edited
/// profile's own key).
pub fn edit_user_profile(
    profile: &mut UserProfile,
    profile_key: Key,
    params: &EditUserProfileParams,
    status: &ProfileItemStatus,
    referrer: Option<Key>,
) -> (r: Result<(), AdrenaError>)
    ensures
        edit_user_profile_error(*old(profile), profile_key, *params, *status, referrer) matches Some(
            e,
        ) ==> r == Err::<(), AdrenaError>(e) && *final(profile) == *old(profile),
        edit_user_profile_error(*old(profile), profile_key, *params, *status, referrer) is None
            ==> r == Ok::<(), AdrenaError>(()) && *final(profile) == (UserProfile {
            wallpaper: params.wallpaper,
            profile_picture: params.profile_picture,
            title: params.title,
            team: match params.team {
                Some(t) => t,
                None => old(profile).team,
            },
            continent: match params.continent {
                Some(c) => c,
                None => old(profile).continent,
            },
            referrer_profile: match referrer {
                Some(k) => k,
                None => Key::default_spec(),
            },
            ..*old(profile)
        }),
        old(profile).team != DEFAULT_CHOICE ==> final(profile).team == old(profile).team,
{
    if !status.wallpaper_exists || !status.profile_picture_exists || !status.title_exists {
        return Err(AdrenaError::InvalidWallpaperOrProfilePictureOrTitle);
    }
    if (params.team.is_some() && !status.team_exists) || (params.continent.is_some()
        && !status.continent_exists) {
        return Err(AdrenaError::InvalidContinentOrTeam);
    }
    if !status.wallpaper_unlocked {
        return Err(AdrenaError::WallpaperNotUnlocked);
    }
    if !status.profile_picture_unlocked {
        return Err(AdrenaError::ProfilePictureNotUnlocked);
    }
    if !status.title_unlocked {
        return Err(AdrenaError::TitleNotUnlocked);
    }
    if let Some(t) = params.team {
        if t == DEFAULT_CHOICE {
            return Err(AdrenaError::InvalidContinentOrTeam);
        }
        if profile.team != DEFAULT_CHOICE {
            return Err(AdrenaError::TeamImmutable);
        }
    }
    if let Some(c) = params.continent {
        if c == DEFAULT_CHOICE {
            return Err(AdrenaError::InvalidContinentOrTeam);
        }
    }
    if let Some(k) = referrer {
        if k == profile_key {
            return Err(AdrenaError::InvalidAccountData);
        }
    }
    profile.wallpaper = params.wallpaper;
    profile.profile_picture = params.profile_picture;
    profile.title = params.title;
    if let Some(t) = params.team {
        profile.team = t;
    }
    if let Some(c) = params.continent {
        profile.continent = c;
    }
    match referrer {
        Some(k) => {
            profile.referrer_profile = k;
        },
        None => {
            profile.referrer_profile = Key::default_key();
        },
    }
    Ok(())
}

/// The operation code that grants achievements.
pub const GRANT_ACHIEVEMENTS: u8 = 1u8;

/// The operation code that removes achievements.
pub const REMOVE_ACHIEVEMENTS: u8 = 2u8;

/// A list of achievements to grant or remove, and which of the two (`GRANT_ACHIEVEMENTS` or
/// `REMOVE_ACHIEVEMENTS`).
pub struct GrantOrRemoveAchievementParams {
    pub achievements: Vec<u8>,
    pub operation: u8,
}

/// Grants (operation 1) or removes (operation 2) a list of achievements. Only the
/// achievement authority may call it (`InvalidCaller`); any other operation is an
/// `InvalidArgument`. On an error the profile is left as it was.
pub fn grant_or_remove_achievement(
    profile: &mut UserProfile,
    caller: Key,
    params: &GrantOrRemoveAchievementParams,
) -> (r: Result<(), AdrenaError>)
    requires
        old(profile).well_formed(),
    ensures
        final(profile).well_formed(),
        caller != achievement_authority_spec() ==> r == Err::<(), AdrenaError>(
            AdrenaError::InvalidCaller,
        ) && *final(profile) == *old(profile),
        caller == achievement_authority_spec() && params.operation != GRANT_ACHIEVEMENTS && params.operation
            != REMOVE_ACHIEVEMENTS ==> r == Err::<(), AdrenaError>(AdrenaError::InvalidArgument)
            && *final(profile) == *old(profile),
        caller == achievement_authority_spec() && params.operation == GRANT_ACHIEVEMENTS ==> r == Ok::<
            (),
            AdrenaError,
        >(()) && forall|a: u8| #[trigger]
            final(profile).achievements@.contains(a) <==> (old(profile).achievements@.contains(a)
                || params.achievements@.contains(a)),
        caller == achievement_authority_spec() && params.operation == REMOVE_ACHIEVEMENTS ==> r == Ok::<
            (),
            AdrenaError,
        >(()) && forall|a: u8| #[trigger]
            final(profile).achievements@.contains(a) <==> (old(profile).achievements@.contains(a)
                && !params.achievements@.contains(a)),
        final(profile).profile_picture == old(profile).profile_picture,
        final(profile).wallpaper == old(profile).wallpaper,
        final(profile).title == old(profile).title,
        final(profile).team == old(profile).team,
        final(profile).continent == old(profile).continent,
        final(profile).referrer_profile == old(profile).referrer_profile,
        final(profile).claimable_referral_fee_usd == old(profile).claimable_referral_fee_usd,
        final(profile).total_referral_fee_usd == old(profile).total_referral_fee_usd,
{
    if caller != achievement_authority() {
        return Err(AdrenaError::InvalidCaller);
    }
    if params.operation == GRANT_ACHIEVEMENTS {
        let mut i: usize = 0;
        while i < params.achievements.len()
            invariant
                i <= params.achievements@.len(),
                profile.well_formed(),
                forall|a: u8| #[trigger]
                    profile.achievements@.contains(a) <==> (old(profile).achievements@.contains(a)
                        || params.achievements@.subrange(0, i as int).contains(a)),
                profile.profile_picture == old(profile).profile_picture,
                profile.wallpaper == old(profile).wallpaper,
                profile.title == old(profile).title,
                profile.team == old(profile).team,
                profile.continent == old(profile).continent,
                profile.referrer_profile == old(profile).referrer_profile,
                profile.claimable_referral_fee_usd == old(profile).claimable_referral_fee_usd,
                profile.total_referral_fee_usd == old(profile).total_referral_fee_usd,
            decreases params.achievements@.len() - i,
        {
            let ghost prefix = params.achievements@.subrange(0, i as int);
            let ghost next = params.achievements@.subrange(0, i + 1);
            profile.unlock_achievement(params.achievements[i]);
            proof {
                assert(next =~= prefix.push(params.achievements@[i as int]));
                assert forall|a: u8| #[trigger] next.contains(a) <==> (prefix.contains(a) || a
                    == params.achievements@[i as int]) by {
                    if next.contains(a) && a != params.achievements@[i as int] {
                        let j = choose|j: int| 0 <= j < next.len() && next[j] == a;
                        assert(prefix[j] == a);
                    }
                    if prefix.contains(a) {
                        let j = choose|j: int| 0 <= j < prefix.len() && prefix[j] == a;
                        assert(next[j] == a);
                    }
                    if a == params.achievements@[i as int] {
                        assert(next[i as int] == a);
                    }
                }
            }
            i = i + 1;
        }
        proof {
            assert(params.achievements@.subrange(0, params.achievements@.len() as int) =~= params.achievements@);
        }
        Ok(())
    } else if params.operation == REMOVE_ACHIEVEMENTS {
        let mut i: usize = 0;
        while i < params.achievements.len()
            invariant
                i <= params.achievements@.len(),
                profile.well_formed(),
                forall|a: u8| #[trigger]
                    profile.achievements@.contains(a) <==> (old(profile).achievements@.contains(a)
                        && !params.achievements@.subrange(0, i as int).contains(a)),
                profile.profile_picture == old(profile).profile_picture,
                profile.wallpaper == old(profile).wallpaper,
                profile.title == old(profile).title,
                profile.team == old(profile).team,
                profile.continent == old(profile).continent,
                profile.referrer_profile == old(profile).referrer_profile,
                profile.claimable_referral_fee_usd == old(profile).claimable_referral_fee_usd,
                profile.total_referral_fee_usd == old(profile).total_referral_fee_usd,
            decreases params.achievements@.len() - i,
        {
            let ghost prefix = params.achievements@.subrange(0, i as int);
            let ghost next = params.achievements@.subrange(0, i + 1);
            profile.remove_achievement(params.achievements[i]);
            proof {
                assert(next =~= prefix.push(params.achievements@[i as int]));
                assert forall|a: u8| #[trigger] next.contains(a) <==> (prefix.contains(a) || a
                    == params.achievements@[i as int]) by {
                    if next.contains(a) && a != params.achievements@[i as int] {
                        let j = choose|j: int| 0 <= j < next.len() && next[j] == a;
                        assert(prefix[j] == a);
                    }
                    if prefix.contains(a) {
                        let j = choose|j: int| 0 <= j < prefix.len() && prefix[j] == a;
                        assert(next[j] == a);
                    }
                    if a == params.achievements@[i as int] {
                        assert(next[i as int] == a);
                    }
                }
            }
            i = i + 1;
        }
        proof {
            assert(params.achievements@.subrange(0, params.achievements@.len() as int) =~= params.achievements@);
        }
        Ok(())
    } else {
        Err(AdrenaError::InvalidArgument)
    }
}

/// Granting achievements a profile does not hold and removing them again leaves the
/// profile's achievements as they were: `granted` and `removed` are the achievements after
/// each operation, as `grant_or_remove_achievement` states them.
pub proof fn lemma_grant_then_remove(before: Seq<u8>, list: Seq<u8>, granted: Seq<u8>, removed: Seq<u8>)
    requires
        forall|a: u8| list.contains(a) ==> !before.contains(a),
        forall|a: u8| #[trigger] granted.contains(a) <==> (before.contains(a) || list.contains(a)),
        forall|a: u8| #[trigger] removed.contains(a) <==> (granted.contains(a) && !list.contains(a)),
    ensures
        forall|a: u8| #[trigger] removed.contains(a) <==> before.contains(a),
{
    assert forall|a: u8| #[trigger] removed.contains(a) <==> before.contains(a) by {
        assert(granted.contains(a) <==> (before.contains(a) || list.contains(a)));
        if list.contains(a) {
            assert(!before.contains(a));
        }
    }
}

} // verus!
